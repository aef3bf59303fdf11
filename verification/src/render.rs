use vstd::prelude::*;
use crate::hexstr::{hex_digit, push_hex_digit};
use crate::paste::{views_of, Paste, PasteView};

verus! {

/// The decimal rendering of a number: its digits in order, with no
/// leading zero except for zero itself. A digit below ten renders the
/// same in decimal and hexadecimal, so the digit map is shared.
pub open spec fn dec_of(n: nat) -> Seq<char>
    decreases n,
{
    if n < 10 {
        seq![hex_digit(n as u8)]
    } else {
        dec_of(n / 10).push(hex_digit((n % 10) as u8))
    }
}

/// The characters of a digit list collected least-significant first,
/// read back most-significant first.
pub open spec fn rev_digit_chars(ds: Seq<u8>) -> Seq<char> {
    ds.map_values(|d: u8| hex_digit(d)).reverse()
}

/// Renders a count as its decimal string.
pub fn usize_to_dec(n: usize) -> (r: String)
    ensures
        r@ == dec_of(n as nat),
{
    let mut digits: Vec<u8> = Vec::new();
    let mut m: usize = n;
    loop
        invariant_except_break
            m > 0 ==> dec_of(n as nat) == dec_of(m as nat) + rev_digit_chars(digits@),
            m == 0 ==> digits@.len() == 0 && n == 0,
            forall|k: int| 0 <= k < digits@.len() ==> digits@[k] < 10,
        ensures
            dec_of(n as nat) == rev_digit_chars(digits@),
            forall|k: int| 0 <= k < digits@.len() ==> digits@[k] < 10,
        decreases m,
    {
        let ghost pre = digits@;
        let d: u8 = (m % 10) as u8;
        digits.push(d);
        proof {
            assert(rev_digit_chars(digits@) =~= seq![hex_digit(d)] + rev_digit_chars(pre));
        }
        if m < 10 {
            proof {
                if m == 0 {
                    assert(dec_of(n as nat) =~= rev_digit_chars(digits@));
                } else {
                    assert(dec_of(m as nat) + rev_digit_chars(pre) =~= rev_digit_chars(digits@));
                }
            }
            break;
        }
        proof {
            let prev = m as nat;
            assert(dec_of(prev) == dec_of(prev / 10).push(hex_digit((prev % 10) as u8)));
            assert(dec_of(prev / 10) + (seq![hex_digit(d)] + rev_digit_chars(pre))
                =~= dec_of(prev) + rev_digit_chars(pre));
        }
        m = m / 10;
    }
    assert(dec_of(n as nat) == rev_digit_chars(digits@));
    let mut out = String::new();
    let n_digits = digits.len();
    let mut i: usize = n_digits;
    while i > 0
        invariant
            i <= n_digits,
            n_digits == digits@.len(),
            forall|k: int| 0 <= k < digits@.len() ==> digits@[k] < 10,
            dec_of(n as nat) == rev_digit_chars(digits@),
            out@ == rev_digit_chars(digits@).take(n_digits - i),
        decreases i,
    {
        i = i - 1;
        push_hex_digit(&mut out, digits[i]);
        proof {
            let target = rev_digit_chars(digits@);
            assert(target[n_digits - 1 - i] == hex_digit(digits@[i as int]));
            assert(out@ =~= target.take(n_digits - i));
        }
    }
    proof {
        assert(rev_digit_chars(digits@).take(n_digits as int) =~= rev_digit_chars(digits@));
    }
    out
}

/// The page body for one retrieved paste: title as a heading, content
/// as a paragraph, and the pseudonymous author identifier in code.
pub open spec fn paste_page_of(p: PasteView) -> Seq<char> {
    "<h1>"@ + p.title + "</h1><p>"@ + p.content + "</p><code>"@ + p.author_id + "</code>"@
}

/// One listing line for a paste: a link to the paste by its identifier.
pub open spec fn author_line_of(p: PasteView) -> Seq<char> {
    "<a href=\"/"@ + p.id + "\">"@ + p.id + "</a></br>"@
}

/// The listing lines for a sequence of pastes, in order.
pub open spec fn author_lines_of(ps: Seq<PasteView>) -> Seq<char>
    decreases ps.len(),
{
    if ps.len() == 0 {
        Seq::empty()
    } else {
        author_lines_of(ps.drop_last()) + author_line_of(ps.last())
    }
}

/// The page body for an author's listing: the match count, then one
/// link per matching paste.
pub open spec fn author_page_of(ps: Seq<PasteView>) -> Seq<char> {
    "<h1>Found "@ + dec_of(ps.len()) + " posts!</h1>"@ + author_lines_of(ps)
}

/// Renders the page body for one retrieved paste.
pub fn render_paste_page(p: &Paste) -> (r: String)
    ensures
        r@ == paste_page_of(p@),
{
    let mut out = String::new();
    out.append("<h1>");
    out.append(p.title.as_str());
    out.append("</h1><p>");
    out.append(p.content.as_str());
    out.append("</p><code>");
    out.append(p.author_id.as_str());
    out.append("</code>");
    proof {
        assert(out@ =~= paste_page_of(p@));
    }
    out
}

fn append_author_line(out: &mut String, p: &Paste)
    ensures
        final(out)@ == old(out)@ + author_line_of(p@),
{
    out.append("<a href=\"/");
    out.append(p.id.as_str());
    out.append("\">");
    out.append(p.id.as_str());
    out.append("</a></br>");
    proof {
        assert(out@ =~= old(out)@ + author_line_of(p@));
    }
}

/// Renders the page body for an author's listing.
pub fn render_author_page(pastes: &Vec<Paste>) -> (r: String)
    ensures
        r@ == author_page_of(views_of(pastes@)),
{
    let mut out = String::new();
    out.append("<h1>Found ");
    let count = usize_to_dec(pastes.len());
    out.append(count.as_str());
    out.append(" posts!</h1>");
    let ghost header = out@;
    proof {
        assert(views_of(pastes@).len() == pastes@.len());
        assert(header =~= "<h1>Found "@ + dec_of(views_of(pastes@).len()) + " posts!</h1>"@);
    }
    let n = pastes.len();
    let mut i: usize = 0;
    while i < n
        invariant
            n == pastes@.len(),
            i <= n,
            header == "<h1>Found "@ + dec_of(views_of(pastes@).len()) + " posts!</h1>"@,
            out@ == header + author_lines_of(views_of(pastes@).take(i as int)),
        decreases n - i,
    {
        append_author_line(&mut out, &pastes[i]);
        proof {
            let vs = views_of(pastes@);
            let prefix = vs.take(i + 1);
            assert(prefix.drop_last() =~= vs.take(i as int));
            assert(prefix.last() == vs[i as int]);
            assert(out@ =~= header + author_lines_of(prefix));
        }
        i = i + 1;
    }
    proof {
        assert(views_of(pastes@).take(pastes@.len() as int) =~= views_of(pastes@));
    }
    out
}

} // verus!
