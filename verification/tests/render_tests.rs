use pastebin::paste::Paste;
use pastebin::render::{render_author_page, render_paste_page, usize_to_dec};

fn sample(id: &str, title: &str, content: &str, author_id: &str) -> Paste {
    Paste {
        id: String::from(id),
        title: String::from(title),
        content: String::from(content),
        author_id: String::from(author_id),
    }
}

#[test]
fn counts_render_in_decimal() {
    assert_eq!(usize_to_dec(0), "0");
    assert_eq!(usize_to_dec(7), "7");
    assert_eq!(usize_to_dec(10), "10");
    assert_eq!(usize_to_dec(42), "42");
    assert_eq!(usize_to_dec(105), "105");
    assert_eq!(usize_to_dec(12345), "12345");
}

#[test]
fn paste_page_shows_title_content_and_author() {
    let p = sample("0123456789abcdef01234567", "Hi", "World", "aa11");
    assert_eq!(render_paste_page(&p), "<h1>Hi</h1><p>World</p><code>aa11</code>");
}

#[test]
fn author_page_lists_count_and_links() {
    let a = sample("0123456789abcdef01234567", "t1", "c1", "au");
    let b = sample("89abcdef0123456701234567", "t2", "c2", "au");
    let body = render_author_page(&vec![a, b]);
    assert_eq!(
        body,
        "<h1>Found 2 posts!</h1>\
         <a href=\"/0123456789abcdef01234567\">0123456789abcdef01234567</a></br>\
         <a href=\"/89abcdef0123456701234567\">89abcdef0123456701234567</a></br>"
    );
    assert_eq!(render_author_page(&vec![]), "<h1>Found 0 posts!</h1>");
}
