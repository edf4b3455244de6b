//! The login and homeserver pages: checking what was typed before a login
//! is attempted, the status line under the form, and the discovery of the
//! homeserver.

use vstd::prelude::*;
use crate::chars::chars_of;
use crate::logs::is_white_space;

verus! {

broadcast use vstd::string::group_string_axioms;

/// The status line of the login form.
pub enum LoginInputStatus {
    Loading,
    Valid,
    UsernameEmpty,
    PasswordEmpty,
    RecoveryKeyEmpty,
    RecoveryKeyInvalid,
    Error(String),
}

/// Why the backend refused a login.
pub enum LoginError {
    BackendError,
    InvalidCredentials,
    NetworkError,
}

/// The number of UTF-8 bytes of a character.
pub open spec fn utf8_len(c: char) -> nat {
    let v = c as u32;
    if v < 0x80 {
        1
    } else if v < 0x800 {
        2
    } else if v < 0x10000 {
        3
    } else {
        4
    }
}

/// The byte lengths of the white-space separated words among the first
/// `k` characters, the last one counted so far.
pub open spec fn word_bytes(s: Seq<char>, k: nat) -> Seq<nat>
    decreases k,
{
    if k == 0 {
        Seq::empty()
    } else {
        let prev = word_bytes(s, (k - 1) as nat);
        let c = s[k - 1];
        if is_white_space(c) {
            prev
        } else if k >= 2 && !is_white_space(s[k - 2]) {
            prev.update(prev.len() - 1, prev.last() + utf8_len(c))
        } else {
            prev.push(utf8_len(c))
        }
    }
}

/// A recovery key is twelve groups of four bytes separated by white space.
pub open spec fn key_format_ok(key: Seq<char>) -> bool {
    let words = word_bytes(key, key.len());
    words.len() == 12 && forall|i: int| 0 <= i < 12 ==> words[i] == 4
}

proof fn lemma_word_bytes_nonempty(s: Seq<char>, k: nat)
    requires
        0 < k <= s.len(),
        !is_white_space(s[k - 1]),
    ensures
        word_bytes(s, k).len() > 0,
    decreases k,
{
    if k >= 2 && !is_white_space(s[k - 2]) {
        lemma_word_bytes_nonempty(s, (k - 1) as nat);
    }
}

/// Checks the shape of a recovery key.
pub fn check_key_format(key: &str) -> (ok: bool)
    ensures
        ok == key_format_ok(key@),
{
    let cs = chars_of(key);
    let mut words: Vec<u128> = Vec::new();
    let mut i: usize = 0;
    while i < cs.len()
        invariant
            cs@ == key@,
            i <= cs@.len(),
            words@.len() == word_bytes(cs@, i as nat).len(),
            forall|j: int| 0 <= j < words@.len() ==> words@[j] == word_bytes(cs@, i as nat)[j],
            forall|j: int| 0 <= j < words@.len() ==> words@[j] <= 4 * i,
            words@.len() <= i,
        decreases cs.len() - i,
    {
        let c = cs[i];
        let v = c as u32;
        let n: u128 = if v < 0x80 {
            1
        } else if v < 0x800 {
            2
        } else if v < 0x10000 {
            3
        } else {
            4
        };
        let ws = crate::logs::white_space_char(c);
        if !ws {
            if i >= 1 && !crate::logs::white_space_char(cs[i - 1]) {
                proof {
                    lemma_word_bytes_nonempty(cs@, i as nat);
                }
                let last = words.len() - 1;
                let w = words[last];
                words.set(last, w + n);
            } else {
                words.push(n);
            }
        }
        i = i + 1;
    }
    if words.len() != 12 {
        return false;
    }
    let mut j: usize = 0;
    while j < 12
        invariant
            cs@ == key@,
            words@.len() == 12,
            words@.len() == word_bytes(cs@, cs@.len() as nat).len(),
            forall|k: int| 0 <= k < words@.len() ==> words@[k] == word_bytes(cs@, cs@.len() as nat)[k],
            j <= 12,
            forall|k: int| 0 <= k < j ==> words@[k] == 4,
        decreases 12 - j,
    {
        if words[j] != 4 {
            return false;
        }
        j = j + 1;
    }
    assert forall|k: int| 0 <= k < 12 implies word_bytes(key@, key@.len() as nat)[k] == 4 by {
        assert(words@[k] == 4);
    }
    true
}

/// What the form says of the inputs: each of the three must be filled, in
/// that order, and the recovery key must have its shape.
pub open spec fn validate_spec(username: Seq<char>, password: Seq<char>, key: Seq<char>) -> LoginInputStatus {
    if username.len() == 0 {
        LoginInputStatus::UsernameEmpty
    } else if password.len() == 0 {
        LoginInputStatus::PasswordEmpty
    } else if key.len() == 0 {
        LoginInputStatus::RecoveryKeyEmpty
    } else if !key_format_ok(key) {
        LoginInputStatus::RecoveryKeyInvalid
    } else {
        LoginInputStatus::Valid
    }
}

/// Checks the login inputs; the form can be sent when they are valid.
pub fn validate_login(username: &str, password: &str, key: &str) -> (status: LoginInputStatus)
    ensures
        status == validate_spec(username@, password@, key@),
{
    if username.is_empty() {
        LoginInputStatus::UsernameEmpty
    } else if password.is_empty() {
        LoginInputStatus::PasswordEmpty
    } else if key.is_empty() {
        LoginInputStatus::RecoveryKeyEmpty
    } else if !check_key_format(key) {
        LoginInputStatus::RecoveryKeyInvalid
    } else {
        LoginInputStatus::Valid
    }
}

/// A login is sent to the backend only with all three inputs filled.
pub fn may_submit(username: &str, password: &str, key: &str) -> (b: bool)
    ensures
        b == (username@.len() > 0 && password@.len() > 0 && key@.len() > 0),
{
    !(username.is_empty() || password.is_empty() || key.is_empty())
}

pub open spec fn login_error_text(e: LoginError) -> Seq<char> {
    match e {
        LoginError::BackendError => "An unknown error occurred"@,
        LoginError::InvalidCredentials => "Invalid username, password, or recovery key"@,
        LoginError::NetworkError => "A network error occurred. Please check your connection and try again."@,
    }
}

/// The status a refused login shows.
pub fn status_of_error(e: &LoginError) -> (s: LoginInputStatus)
    ensures
        s matches LoginInputStatus::Error(t) && t@ == login_error_text(*e),
{
    match e {
        LoginError::BackendError => LoginInputStatus::Error(String::from_str("An unknown error occurred")),
        LoginError::InvalidCredentials => LoginInputStatus::Error(
            String::from_str("Invalid username, password, or recovery key"),
        ),
        LoginError::NetworkError => LoginInputStatus::Error(
            String::from_str("A network error occurred. Please check your connection and try again."),
        ),
    }
}

pub open spec fn status_text_spec(s: LoginInputStatus) -> Seq<char> {
    match s {
        LoginInputStatus::Valid => "All inputs look good"@,
        LoginInputStatus::UsernameEmpty => "Username cannot be empty"@,
        LoginInputStatus::PasswordEmpty => "Password cannot be empty"@,
        LoginInputStatus::RecoveryKeyEmpty => "Recovery key cannot be empty"@,
        LoginInputStatus::RecoveryKeyInvalid => "Recovery should be twelve groups of 4 characters seperated by spaces"@,
        LoginInputStatus::Error(e) => e@,
        LoginInputStatus::Loading => "Logging in..."@,
    }
}

impl LoginInputStatus {
    /// The text of the status line, and whether it reads as an error.
    pub fn text(&self) -> (r: (String, bool))
        ensures
            r.0@ == status_text_spec(*self),
            r.1 == !(*self is Valid || *self is Loading),
    {
        match self {
            LoginInputStatus::Valid => (String::from_str("All inputs look good"), false),
            LoginInputStatus::UsernameEmpty => (String::from_str("Username cannot be empty"), true),
            LoginInputStatus::PasswordEmpty => (String::from_str("Password cannot be empty"), true),
            LoginInputStatus::RecoveryKeyEmpty => (String::from_str("Recovery key cannot be empty"), true),
            LoginInputStatus::RecoveryKeyInvalid => (
                String::from_str("Recovery should be twelve groups of 4 characters seperated by spaces"),
                true,
            ),
            LoginInputStatus::Error(e) => (e.clone(), true),
            LoginInputStatus::Loading => (String::from_str("Logging in..."), false),
        }
    }
}

/// Where the search for a homeserver stands.
pub enum DiscoveryStatus {
    Idle,
    Checking,
    Found,
    NotFound,
}

/// The status after the backend answered for `asked`, while `current` is
/// typed: found only where it confirms the very text still typed.
pub fn discovery_result(answer: &Option<String>, current: &String) -> (r: (bool, DiscoveryStatus))
    ensures
        r.0 == (answer matches Some(a) && a@ == current@),
        r.0 ==> r.1 is Found,
        !r.0 ==> r.1 is NotFound,
{
    match answer {
        Some(a) => {
            if *a == *current {
                (true, DiscoveryStatus::Found)
            } else {
                (false, DiscoveryStatus::NotFound)
            }
        },
        None => (false, DiscoveryStatus::NotFound),
    }
}

/// The status while the homeserver field holds `text`: idle when empty,
/// otherwise checking until the backend answers.
pub fn discovery_on_input(text: &str) -> (r: DiscoveryStatus)
    ensures
        (r is Idle) == (text@.len() == 0),
        (r is Checking) == (text@.len() > 0),
{
    if text.is_empty() {
        DiscoveryStatus::Idle
    } else {
        DiscoveryStatus::Checking
    }
}

pub open spec fn discovery_text_spec(s: DiscoveryStatus) -> Seq<char> {
    match s {
        DiscoveryStatus::Idle => "Enter a homeserver URL"@,
        DiscoveryStatus::Checking => "Checking server..."@,
        DiscoveryStatus::Found => "Server found"@,
        DiscoveryStatus::NotFound => "Server not found"@,
    }
}

impl DiscoveryStatus {
    pub fn text(&self) -> (s: String)
        ensures
            s@ == discovery_text_spec(*self),
    {
        match self {
            DiscoveryStatus::Idle => String::from_str("Enter a homeserver URL"),
            DiscoveryStatus::Checking => String::from_str("Checking server..."),
            DiscoveryStatus::Found => String::from_str("Server found"),
            DiscoveryStatus::NotFound => String::from_str("Server not found"),
        }
    }
}

} // verus!
