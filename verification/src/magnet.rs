//! The info-hash of a magnet link.

use vstd::prelude::*;
use crate::text::chars_of;

verus! {

/// The marker that precedes the info-hash in a magnet link.
pub open spec fn hash_marker() -> Seq<char> {
    seq!['b', 't', 'i', 'h', ':']
}

/// Whether the marker starts at position `p` of `s`.
pub open spec fn marker_at(s: Seq<char>, p: int) -> bool {
    &&& 0 <= p
    &&& p + 5 <= s.len()
    &&& s.subrange(p, p + 5) == hash_marker()
}

/// `p` is the first position from `from` on where the marker starts.
pub open spec fn first_marker_from(s: Seq<char>, from: int, p: int) -> bool {
    &&& from <= p
    &&& marker_at(s, p)
    &&& forall|k: int| from <= k < p ==> !marker_at(s, k)
}

/// Position `k` ends a hash: an `&` or the start of another marker.
pub open spec fn ends_hash(s: Seq<char>, k: int) -> bool {
    s[k] == '&' || marker_at(s, k)
}

/// `e` is where the hash that starts at `start` ends: the first position
/// from `start` on that ends a hash, or the end of `s`.
pub open spec fn hash_end(s: Seq<char>, start: int, e: int) -> bool {
    &&& start <= e <= s.len()
    &&& forall|k: int| start <= k < e ==> !ends_hash(s, k)
    &&& (e == s.len() || ends_hash(s, e))
}

/// The hash of `s` lies at `p + 5 .. e`: `p` is the first marker and `e`
/// ends the hash that follows it.
pub open spec fn hash_span(s: Seq<char>, p: int, e: int) -> bool {
    first_marker_from(s, 0, p) && hash_end(s, p + 5, e)
}

fn marker_at_exec(v: &Vec<char>, p: usize) -> (r: bool)
    ensures
        r == marker_at(v@, p as int),
{
    if p > v.len() || v.len() - p < 5 {
        return false;
    }
    let r = v[p] == 'b' && v[p + 1] == 't' && v[p + 2] == 'i' && v[p + 3] == 'h' && v[p + 4]
        == ':';
    assert(r ==> v@.subrange(p as int, p + 5) =~= hash_marker());
    assert(v@.subrange(p as int, p + 5) == hash_marker() ==> v@.subrange(p as int, p + 5)[0]
        == 'b' && v@.subrange(p as int, p + 5)[1] == 't' && v@.subrange(p as int, p + 5)[2] == 'i'
        && v@.subrange(p as int, p + 5)[3] == 'h' && v@.subrange(p as int, p + 5)[4] == ':');
    r
}

/// The info-hash of a magnet link: the text after the first `btih:`, up to
/// the next `&` or `btih:`, or to the end. Fails where there is no `btih:`.
pub fn extract_hash_from_magnet_link(magnet: &str) -> (r: Result<&str, &'static str>)
    ensures
        r is Err <==> forall|p: int| !marker_at(magnet@, p),
        r matches Ok(h) ==> exists|p: int, e: int|
            #[trigger] hash_span(magnet@, p, e) && h@ == magnet@.subrange(p + 5, e),
        r matches Err(e) ==> e == "Error extracting hash",
{
    let v = chars_of(magnet);
    let n = v.len();
    let mut p: usize = 0;
    while p < n
        invariant
            n == v@.len(),
            v@ == magnet@,
            p <= n,
            forall|k: int| 0 <= k < p ==> !marker_at(magnet@, k),
        decreases n - p,
    {
        if marker_at_exec(&v, p) {
            let start = p + 5;
            let mut e = start;
            while e < n && !(v[e] == '&' || marker_at_exec(&v, e))
                invariant
                    n == v@.len(),
                    v@ == magnet@,
                    start <= e <= n,
                    forall|k: int| start <= k < e ==> !ends_hash(magnet@, k),
                decreases n - e,
            {
                e = e + 1;
            }
            assert(first_marker_from(magnet@, 0, p as int));
            assert(hash_end(magnet@, start as int, e as int));
            assert(hash_span(magnet@, p as int, e as int));
            return Ok(magnet.substring_char(start, e));
        }
        p = p + 1;
    }
    assert forall|k: int| !marker_at(magnet@, k) by {
        if 0 <= k < p {
        }
    }
    Err("Error extracting hash")
}

} // verus!

verus! {

/// The hash taken from a magnet link holds no `&` and no `btih:`: it stops
/// before the next parameter or marker.
pub proof fn law_hash_stops_at_separators(s: Seq<char>, p: int, e: int)
    requires
        hash_span(s, p, e),
    ensures
        forall|k: int| p + 5 <= k < e ==> s[k] != '&' && !marker_at(s, k),
{
    assert forall|k: int| p + 5 <= k < e implies s[k] != '&' && !marker_at(s, k) by {
        assert(!ends_hash(s, k));
    }
}

} // verus!

verus! {

/// The hash runs as far as it can: it ends at the end of the link, at an
/// `&`, or where another marker starts, whatever its length; and the marker
/// before it is the first in the link.
pub proof fn law_hash_is_maximal(s: Seq<char>, p: int, e: int)
    requires
        hash_span(s, p, e),
    ensures
        p + 5 <= e <= s.len(),
        e == s.len() || s[e] == '&' || marker_at(s, e),
        forall|k: int| 0 <= k < p ==> !marker_at(s, k),
        marker_at(s, p),
{
}

} // verus!
