//! The query part of a callback address, as name/value pairs.
use vstd::prelude::*;
use crate::text::same_text;
use crate::versions::opt_view;

verus! {

/// What remains of an address once everything up to its query is dropped,
/// as the pattern `.*\?` replaced by nothing gives it.
pub uninterp spec fn query_part_of(url: Seq<char>) -> Seq<char>;

/// Percent-decoding of a text; none where the decoded bytes are not UTF-8.
pub uninterp spec fn url_decoded(s: Seq<char>) -> Option<Seq<char>>;

/// Whether `s` holds a line break.
pub open spec fn has_newline(s: Seq<char>) -> bool {
    exists|i: int| 0 <= i < s.len() && s[i] == '\n'
}

/// What follows the last `?` of `s`, or all of `s` where it has none.
pub open spec fn after_last_question(s: Seq<char>) -> Seq<char>
    decreases s.len(),
{
    if s.len() == 0 {
        s
    } else if s.last() == '?' {
        Seq::empty()
    } else {
        after_last_question(s.drop_last()).push(s.last())
    }
}

/// Relies on `regex::Regex::replace` with the pattern `.*\?` (a valid
/// pattern, so building it does not fail): the first match is dropped, and
/// the result depends on the text alone. Since `.` matches anything but a
/// line break, on one line the match runs from the start to the last `?`.
#[verifier::external_body]
fn strip_to_query(url: &str) -> (r: String)
    ensures
        r@ == query_part_of(url@),
        !has_newline(url@) ==> r@ == after_last_question(url@),
{
    regex::Regex::new(r".*\?").unwrap().replace(url, "").into_owned()
}

/// Relies on `urlencoding::decode`: percent-decoding that fails only where
/// the bytes are not UTF-8; the result depends on the text alone.
#[verifier::external_body]
fn url_decode(s: &str) -> (r: Option<String>)
    ensures
        opt_view(r) == url_decoded(s@),
{
    match urlencoding::decode(s) {
        Ok(v) => Some(v.into_owned()),
        Err(_) => None,
    }
}

/// Why a query could not be read.
#[derive(Clone, Copy, Debug, PartialEq, Eq, Structural)]
pub enum QueryError {
    /// A piece between `&` is not exactly one name and one value.
    Malformed,
    /// A value does not decode to UTF-8 text.
    Undecodable,
}

/// The pieces of `s` between the separators `sep`.
pub open spec fn split_spec(s: Seq<char>, sep: char) -> Seq<Seq<char>>
    decreases s.len(),
{
    if s.len() == 0 {
        seq![Seq::empty()]
    } else {
        let prev = split_spec(s.drop_last(), sep);
        if s.last() == sep {
            prev.push(Seq::empty())
        } else {
            prev.update(prev.len() - 1, prev.last().push(s.last()))
        }
    }
}

pub open spec fn texts_view(v: Seq<String>) -> Seq<Seq<char>> {
    v.map_values(|x: String| x@)
}

pub open spec fn pairs_view(v: Seq<(String, String)>) -> Seq<(Seq<char>, Seq<char>)> {
    v.map_values(|x: (String, String)| (x.0@, x.1@))
}

/// The name/value pairs of the pieces `ps`, in order, or the first failure.
pub open spec fn pairs_spec(ps: Seq<Seq<char>>) -> Result<Seq<(Seq<char>, Seq<char>)>, QueryError>
    decreases ps.len(),
{
    if ps.len() == 0 {
        Ok(Seq::empty())
    } else {
        match pairs_spec(ps.drop_last()) {
            Err(e) => Err(e),
            Ok(prev) => {
                let parts = split_spec(ps.last(), '=');
                if parts.len() != 2 {
                    Err(QueryError::Malformed)
                } else {
                    match url_decoded(parts[1]) {
                        None => Err(QueryError::Undecodable),
                        Some(v) => Ok(prev.push((parts[0], v))),
                    }
                }
            }
        }
    }
}

pub open spec fn query_spec(q: Seq<char>) -> Result<Seq<(Seq<char>, Seq<char>)>, QueryError> {
    pairs_spec(split_spec(q, '&'))
}

pub open spec fn result_view(r: Result<Vec<(String, String)>, QueryError>) -> Result<Seq<(Seq<char>, Seq<char>)>, QueryError> {
    match r {
        Ok(v) => Ok(pairs_view(v@)),
        Err(e) => Err(e),
    }
}

/// The pieces of `s` between the separators `sep`.
fn split_text(s: &str, sep: char) -> (r: Vec<String>)
    ensures
        texts_view(r@) == split_spec(s@, sep),
{
    let n = s.unicode_len();
    let mut pieces: Vec<String> = Vec::new();
    let mut start: usize = 0;
    let mut i: usize = 0;
    assert(s@.take(0) =~= Seq::<char>::empty());
    assert(s@.subrange(0, 0) =~= Seq::<char>::empty());
    while i < n
        invariant
            n == s@.len(),
            0 <= start <= i <= n,
            texts_view(pieces@).push(s@.subrange(start as int, i as int)) == split_spec(s@.take(i as int), sep),
        decreases n - i,
    {
        let c = s.get_char(i);
        let ghost prev = split_spec(s@.take(i as int), sep);
        proof {
            assert(s@.take(i + 1).drop_last() =~= s@.take(i as int));
            assert(s@.take(i + 1).last() == c);
        }
        if c == sep {
            let ghost old_pieces = pieces@;
            let ghost old_start = start;
            let piece = s.substring_char(start, i).to_string();
            pieces.push(piece);
            start = i + 1;
            proof {
                assert(texts_view(pieces@) =~= texts_view(old_pieces).push(s@.subrange(old_start as int, i as int)));
                assert(s@.subrange(start as int, i + 1) =~= Seq::<char>::empty());
                assert(texts_view(pieces@).push(s@.subrange(start as int, i + 1)) =~= prev.push(Seq::empty()));
            }
        } else {
            proof {
                assert(s@.subrange(start as int, i + 1) =~= s@.subrange(start as int, i as int).push(c));
                assert(texts_view(pieces@).push(s@.subrange(start as int, i + 1))
                    =~= prev.update(prev.len() - 1, prev.last().push(c)));
            }
        }
        i += 1;
    }
    let last = s.substring_char(start, n).to_string();
    pieces.push(last);
    assert(s@.take(n as int) =~= s@);
    assert(texts_view(pieces@) =~= split_spec(s@, sep));
    pieces
}

/// The name/value pairs of a query text (without the part before `?`), in
/// order; every piece between `&` must be one name, `=`, and one value,
/// which is percent-decoded.
pub fn query_pairs(q: &str) -> (r: Result<Vec<(String, String)>, QueryError>)
    ensures
        result_view(r) == query_spec(q@),
{
    let pieces = split_text(q, '&');
    let ghost ps = texts_view(pieces@);
    let mut out: Vec<(String, String)> = Vec::new();
    let mut i: usize = 0;
    assert(ps.take(0) =~= Seq::<Seq<char>>::empty());
    assert(pairs_view(out@) =~= Seq::<(Seq<char>, Seq<char>)>::empty());
    while i < pieces.len()
        invariant
            ps == texts_view(pieces@),
            ps == split_spec(q@, '&'),
            0 <= i <= pieces@.len(),
            pairs_spec(ps.take(i as int)) == Ok::<Seq<(Seq<char>, Seq<char>)>, QueryError>(pairs_view(out@)),
        decreases pieces@.len() - i,
    {
        proof {
            assert(ps.take(i + 1).drop_last() =~= ps.take(i as int));
            assert(ps.take(i + 1).last() == pieces@[i as int]@);
        }
        let parts = split_text(pieces[i].as_str(), '=');
        assert(split_spec(ps.take(i + 1).last(), '=') == texts_view(parts@));
        if parts.len() != 2 {
            proof { lemma_pairs_error_stays(ps, i as int + 1, QueryError::Malformed); }
            return Err(QueryError::Malformed);
        }
        let value = match url_decode(parts[1].as_str()) {
            Some(v) => v,
            None => {
                proof { lemma_pairs_error_stays(ps, i as int + 1, QueryError::Undecodable); }
                return Err(QueryError::Undecodable);
            }
        };
        let ghost old_out = out@;
        let ghost vv = value@;
        out.push((parts[0].clone(), value));
        proof {
            assert(texts_view(parts@)[0] == parts@[0]@);
            assert(texts_view(parts@)[1] == parts@[1]@);
            assert(pairs_view(out@) =~= pairs_view(old_out).push((parts@[0]@, vv)));
        }
        i += 1;
    }
    assert(ps.take(pieces@.len() as int) =~= ps);
    Ok(out)
}

/// Once the first `k` pieces fail, every longer run of pieces fails alike.
proof fn lemma_pairs_error_stays(ps: Seq<Seq<char>>, k: int, e: QueryError)
    requires
        0 <= k <= ps.len(),
        pairs_spec(ps.take(k)) == Err::<Seq<(Seq<char>, Seq<char>)>, QueryError>(e),
    ensures
        pairs_spec(ps) == Err::<Seq<(Seq<char>, Seq<char>)>, QueryError>(e),
    decreases ps.len() - k,
{
    if k < ps.len() {
        assert(ps.take(k + 1).drop_last() =~= ps.take(k));
        lemma_pairs_error_stays(ps, k + 1, e);
    } else {
        assert(ps.take(k) =~= ps);
    }
}

/// The name/value pairs of the query of a callback address.
pub fn get_query(url: String) -> (r: Result<Vec<(String, String)>, QueryError>)
    ensures
        result_view(r) == query_spec(query_part_of(url@)),
        !has_newline(url@) ==> result_view(r) == query_spec(after_last_question(url@)),
{
    let q = strip_to_query(url.as_str());
    query_pairs(q.as_str())
}

/// The value of the last pair named `name`.
pub fn query_value(pairs: &Vec<(String, String)>, name: &str) -> (r: Option<String>)
    ensures
        r is None <==> forall|i: int| 0 <= i < pairs@.len() ==> #[trigger] pairs@[i].0@ != name@,
        r matches Some(v) ==> exists|i: int| 0 <= i < pairs@.len() && pairs@[i].0@ == name@
            && pairs@[i].1@ == v@ && forall|j: int| i < j < pairs@.len() ==> #[trigger] pairs@[j].0@ != name@,
{
    let mut i: usize = pairs.len();
    while i > 0
        invariant
            i <= pairs@.len(),
            forall|j: int| i <= j < pairs@.len() ==> #[trigger] pairs@[j].0@ != name@,
        decreases i,
    {
        if same_text(pairs[i - 1].0.as_str(), name) {
            return Some(pairs[i - 1].1.clone());
        }
        i -= 1;
    }
    None
}

} // verus!
