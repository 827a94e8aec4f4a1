//! The cookie pairs a request carries: every `Cookie` header value that is
//! text, split on `;`, each piece trimmed, empty pieces left out. Parsing a
//! pair into a cookie and keeping the jar is the cookie crate's part.

use vstd::prelude::*;
use vstd::string::*;
use crate::headers::{header_get_all, header_value_text, header_values, value_text};
use crate::text::{split, split_spec, strings_view, trim, trim_spec};

verus! {

/// The trimmed pieces that are not empty, in order.
pub open spec fn nonempty_trimmed(pieces: Seq<Seq<char>>) -> Seq<Seq<char>>
    decreases pieces.len(),
{
    if pieces.len() == 0 {
        Seq::empty()
    } else {
        let rest = nonempty_trimmed(pieces.drop_last());
        let t = trim_spec(pieces.last());
        if t.len() == 0 {
            rest
        } else {
            rest.push(t)
        }
    }
}

/// The cookie pairs of a list of `Cookie` header values.
pub open spec fn cookie_pairs_in(values: Seq<Seq<u8>>) -> Seq<Seq<char>>
    decreases values.len(),
{
    if values.len() == 0 {
        Seq::empty()
    } else {
        cookie_pairs_in(values.drop_last()) + match header_value_text(values.last()) {
            Some(t) => nonempty_trimmed(split_spec(t, ';')),
            None => Seq::empty(),
        }
    }
}

fn pairs_of_text(text: &str, out: &mut Vec<String>)
    ensures
        strings_view(final(out)@) == strings_view(old(out)@) + nonempty_trimmed(
            split_spec(text@, ';'),
        ),
{
    let pieces = split(text, ';');
    let ghost ps = strings_view(pieces@);
    let ghost start = strings_view(out@);
    let mut j: usize = 0;
    assert(ps.take(0) =~= Seq::<Seq<char>>::empty());
    assert(start + nonempty_trimmed(Seq::<Seq<char>>::empty()) =~= start);
    while j < pieces.len()
        invariant
            ps == strings_view(pieces@),
            ps == split_spec(text@, ';'),
            j <= pieces@.len(),
            strings_view(out@) == start + nonempty_trimmed(ps.take(j as int)),
        decreases pieces@.len() - j,
    {
        proof {
            assert(ps.take(j + 1).drop_last() =~= ps.take(j as int));
            assert(ps.take(j + 1).last() == pieces@[j as int]@);
        }
        let t = trim(pieces[j].as_str());
        if t.as_str().unicode_len() > 0 {
            let ghost before = out@;
            out.push(t);
            proof {
                assert(strings_view(out@) =~= strings_view(before).push(t@));
                assert(start + nonempty_trimmed(ps.take(j + 1)) =~= (start + nonempty_trimmed(
                    ps.take(j as int),
                )).push(t@));
            }
        }
        j = j + 1;
    }
    proof {
        assert(ps.take(pieces@.len() as int) =~= ps);
    }
}

/// The cookie pairs (`name=value` text) of a request's `Cookie` headers.
pub fn cookie_pairs(headers: &http::HeaderMap) -> (r: Vec<String>)
    ensures
        strings_view(r@) == cookie_pairs_in(header_values(*headers, "cookie"@)),
{
    proof {
        reveal_strlit("cookie");
    }
    let values = header_get_all(headers, "cookie");
    let ghost vs = values@.map_values(|v: Vec<u8>| v@);
    let mut out: Vec<String> = Vec::new();
    let mut i: usize = 0;
    assert(vs.take(0) =~= Seq::<Seq<u8>>::empty());
    assert(strings_view(out@) =~= Seq::<Seq<char>>::empty());
    while i < values.len()
        invariant
            vs == values@.map_values(|v: Vec<u8>| v@),
            vs == header_values(*headers, "cookie"@),
            i <= values@.len(),
            strings_view(out@) == cookie_pairs_in(vs.take(i as int)),
        decreases values@.len() - i,
    {
        proof {
            assert(vs.take(i + 1).drop_last() =~= vs.take(i as int));
            assert(vs.take(i + 1).last() == values@[i as int]@);
        }
        match value_text(&values[i]) {
            Some(text) => pairs_of_text(text.as_str(), &mut out),
            None => {
                assert(strings_view(out@) + Seq::<Seq<char>>::empty() =~= strings_view(out@));
            },
        }
        i = i + 1;
    }
    proof {
        assert(vs.take(values@.len() as int) =~= vs);
    }
    out
}

} // verus!
