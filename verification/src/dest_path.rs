//! Destination-path handling: the encoder writes its output alongside the
//! source, with everything after the last `.` replaced by the format's
//! extension, or with the extension appended when the path has no dot.
//!
//! Paths travel as UTF-8 bytes. The dot is ASCII, and no UTF-8 continuation
//! byte equals it, so the byte-level search matches the character-level one.

use vstd::prelude::*;

verus! {

/// ASCII '.'.
pub const DOT: u8 = 0x2e;

/// The format's extension with its leading dot, as bytes: ".bruh".
pub open spec fn bruh_extension_bytes() -> Seq<u8> {
    seq![0x2eu8, 0x62u8, 0x72u8, 0x75u8, 0x68u8]
}

/// The index of the last '.' in `s`, or `None` when `s` has no dot.
pub open spec fn last_dot_index(s: Seq<u8>) -> Option<int>
    decreases s.len(),
{
    if s.len() == 0 {
        None
    } else if s[s.len() - 1] == DOT {
        Some(s.len() - 1)
    } else {
        last_dot_index(s.drop_last())
    }
}

/// The destination path for a source path: everything before the last dot
/// (or the whole path, when there is none) with ".bruh" appended.
pub open spec fn spec_destination(s: Seq<u8>) -> Seq<u8> {
    match last_dot_index(s) {
        Some(i) => s.take(i) + bruh_extension_bytes(),
        None => s + bruh_extension_bytes(),
    }
}

/// A dot-free sequence has no last dot.
pub proof fn lemma_last_dot_index_none(s: Seq<u8>)
    requires
        forall|j: int| 0 <= j < s.len() ==> s[j] != DOT,
    ensures
        last_dot_index(s) == None::<int>,
    decreases s.len(),
{
    if s.len() > 0 {
        lemma_last_dot_index_none(s.drop_last());
    }
}

/// A dot with none after it is the last dot.
pub proof fn lemma_last_dot_index_at(s: Seq<u8>, i: int)
    requires
        0 <= i < s.len(),
        s[i] == DOT,
        forall|j: int| i < j < s.len() ==> s[j] != DOT,
    ensures
        last_dot_index(s) == Some(i),
    decreases s.len(),
{
    if i < s.len() - 1 {
        lemma_last_dot_index_at(s.drop_last(), i);
    }
}

/// Builds the destination path: scans for the last dot, keeps what precedes
/// it (or the whole path when there is none), and appends ".bruh".
pub fn destination_path(path: &Vec<u8>) -> (r: Vec<u8>)
    ensures
        r@ == spec_destination(path@),
{
    let n: usize = path.len();
    let mut i: usize = n;
    let mut cut: usize = n;
    let mut found: bool = false;
    while i > 0 && !found
        invariant
            i <= n,
            n == path@.len(),
            !found ==> cut == n && (forall|j: int| i <= j < n ==> path@[j] != DOT),
            found ==> cut < n && path@[cut as int] == DOT && (forall|j: int|
                cut < j < n ==> path@[j] != DOT),
        decreases i,
    {
        if path[i - 1] == DOT {
            cut = i - 1;
            found = true;
        }
        i = i - 1;
    }
    proof {
        if found {
            lemma_last_dot_index_at(path@, cut as int);
        } else {
            lemma_last_dot_index_none(path@);
        }
    }
    let mut out: Vec<u8> = Vec::new();
    let mut k: usize = 0;
    while k < cut
        invariant
            k <= cut,
            cut <= n,
            n == path@.len(),
            out@ == path@.take(k as int),
        decreases cut - k,
    {
        out.push(path[k]);
        proof {
            assert(out@ =~= path@.take(k + 1));
        }
        k = k + 1;
    }
    out.push(DOT);
    out.push(0x62);
    out.push(0x72);
    out.push(0x75);
    out.push(0x68);
    proof {
        assert(path@.take(n as int) =~= path@);
        assert(out@ =~= spec_destination(path@));
    }
    out
}

} // verus!
