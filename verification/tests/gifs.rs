use matrix_frontend::gifs::{
    preview_file, send_file, split_columns, GifFile, GifFormats, GifItem, GifPager, GifReply,
    GifSizes,
};

fn file(url: &str) -> GifFile {
    GifFile { url: url.to_string(), width: 10, height: 20, size: 300 }
}

fn item(id: u64, sm: Option<GifFormats>, md: Option<GifFormats>, hd: Option<GifFormats>) -> GifItem {
    GifItem { id, title: format!("gif {id}"), file: GifSizes { sm, md, hd } }
}

#[test]
fn preview_prefers_small_webp() {
    let g = item(
        1,
        Some(GifFormats { webp: None, gif: Some(file("sm.gif")) }),
        Some(GifFormats { webp: Some(file("md.webp")), gif: Some(file("md.gif")) }),
        None,
    );
    assert_eq!(preview_file(&g).map(|f| f.url), Some("sm.gif".to_string()));
    assert_eq!(send_file(&g).map(|f| f.url), Some("md.gif".to_string()));
    let g = item(2, None, None, Some(GifFormats { webp: Some(file("hd.webp")), gif: None }));
    assert_eq!(preview_file(&g).map(|f| f.url), Some("hd.webp".to_string()));
    assert_eq!(send_file(&g).map(|f| f.url), Some("hd.webp".to_string()));
    let g = item(3, None, None, None);
    assert!(preview_file(&g).is_none());
    assert!(send_file(&g).is_none());
}

#[test]
fn paging_ignores_stale_replies() {
    let mut p = GifPager::new();
    let first = p.open();
    assert_eq!(first.page, 0);
    assert!(!first.append);
    assert!(p.loading);
    p.set_search("cats".to_string());
    let (close, second) = p.key_down(false);
    assert!(!close);
    assert_eq!(second.term, "cats");
    assert_eq!(second.generation, first.generation + 1);
    // The reply to the first request comes late and is dropped.
    p.receive(first.generation, first.append, GifReply::Page { items: vec![item(1, None, None, None)], has_next: true });
    assert!(p.items.is_empty());
    assert!(p.loading);
    p.receive(second.generation, second.append, GifReply::Page { items: vec![item(2, None, None, None)], has_next: true });
    assert_eq!(p.items.len(), 1);
    assert!(!p.loading && p.has_next);
    let next = p.reached_end().expect("a next page");
    assert_eq!(next.page, 1);
    assert!(next.append);
    assert!(p.reached_end().is_none());
    p.receive(next.generation, next.append, GifReply::Page { items: vec![item(3, None, None, None)], has_next: false });
    let ids: Vec<u64> = p.items.iter().map(|g| g.id).collect();
    assert_eq!(ids, vec![2, 3]);
    assert!(p.reached_end().is_none());
    let (close, again) = p.key_down(true);
    assert!(close);
    assert_eq!(again.page, 0);
    assert!(p.items.is_empty());
    p.receive(again.generation, again.append, GifReply::Failed);
    assert!(!p.has_next && !p.loading);
    assert!(p.shows_nothing_found());
}

#[test]
fn columns_alternate() {
    assert_eq!(split_columns(5), (vec![0, 2, 4], vec![1, 3]));
    assert_eq!(split_columns(0), (vec![], vec![]));
}
