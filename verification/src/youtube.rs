use vstd::prelude::*;

verus! {

// ---------------------------------------------------------------------------
// Video download bookkeeping
//
// Downloads run through external programs; what the library owns is the
// naming scheme: each download writes files under a timestamped prefix, and
// the freshest file under that prefix is the one to convert.
// ---------------------------------------------------------------------------

/// The output pattern handed to the downloader for a given timestamp.
pub open spec fn spec_download_pattern(timestamp: Seq<char>) -> Seq<char> {
    "yt_download_"@ + timestamp + "_%(title)s.%(ext)s"@
}

/// The prefix every file of a given download carries.
pub open spec fn spec_download_prefix(timestamp: Seq<char>) -> Seq<char> {
    "yt_download_"@ + timestamp
}

/// Whether a file name belongs to the download with this timestamp.
pub open spec fn spec_is_download_artifact(name: Seq<char>, timestamp: Seq<char>) -> bool {
    let p = spec_download_prefix(timestamp);
    name.len() >= p.len() && name.subrange(0, p.len() as int) == p
}

/// Whether `s` starts with `p`.
fn str_starts_with(s: &str, p: &str) -> (r: bool)
    ensures
        r == (s@.len() >= p@.len() && s@.subrange(0, p@.len() as int) == p@),
{
    let n = s.unicode_len();
    let pn = p.unicode_len();
    if n < pn {
        return false;
    }
    let mut i: usize = 0;
    while i < pn
        invariant
            0 <= i <= pn,
            pn <= n,
            n == s@.len(),
            pn == p@.len(),
            forall|m: int| 0 <= m < i ==> s@[m] == p@[m],
        decreases pn - i,
    {
        if s.get_char(i) != p.get_char(i) {
            assert(s@.subrange(0, pn as int)[i as int] != p@[i as int]);
            return false;
        }
        i = i + 1;
    }
    proof {
        assert(s@.subrange(0, pn as int) =~= p@);
    }
    true
}

/// Build the output pattern for one download.
pub fn download_pattern(timestamp: &str) -> (r: String)
    ensures
        r@ == spec_download_pattern(timestamp@),
{
    let mut r = String::from_str("yt_download_");
    r.append(timestamp);
    r.append("_%(title)s.%(ext)s");
    proof {
        assert(r@ =~= spec_download_pattern(timestamp@));
    }
    r
}

/// Recognize the files a given download produced.
pub fn is_download_artifact(name: &str, timestamp: &str) -> (r: bool)
    ensures
        r == spec_is_download_artifact(name@, timestamp@),
{
    let mut prefix = String::from_str("yt_download_");
    prefix.append(timestamp);
    str_starts_with(name, prefix.as_str())
}

} // verus!
