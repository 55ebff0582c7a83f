use vstd::prelude::*;
use vstd::string::StrSliceExecFns;

verus! {

/// `s` without its leading slashes.
pub open spec fn strip_leading_slashes(s: Seq<char>) -> Seq<char>
    decreases s.len(),
{
    if s.len() > 0 && s[0] == '/' {
        strip_leading_slashes(s.drop_first())
    } else {
        s
    }
}

/// The embedded file a request path names: the path without its leading
/// slashes, or `index.html` for the root.
pub open spec fn asset_path_spec(uri_path: Seq<char>) -> Seq<char> {
    let stripped = strip_leading_slashes(uri_path);
    if stripped.len() == 0 {
        "index.html"@
    } else {
        stripped
    }
}

/// The embedded file a request path names (see [`asset_path_spec`]).
pub fn asset_path(uri_path: &str) -> (r: String)
    ensures
        r@ == asset_path_spec(uri_path@),
{
    let n = uri_path.unicode_len();
    let mut i: usize = 0;
    assert(uri_path@.skip(0) =~= uri_path@);
    while i < n && uri_path.get_char(i) == '/'
        invariant
            n == uri_path@.len(),
            i <= n,
            strip_leading_slashes(uri_path@) == strip_leading_slashes(uri_path@.skip(i as int)),
        decreases n - i,
    {
        assert(uri_path@.skip(i as int).drop_first() =~= uri_path@.skip(i + 1));
        i = i + 1;
    }
    assert(strip_leading_slashes(uri_path@.skip(i as int)) == uri_path@.skip(i as int));
    if i == n {
        "index.html".to_owned()
    } else {
        let rest = uri_path.substring_char(i, n);
        assert(rest@ =~= uri_path@.skip(i as int));
        rest.to_owned()
    }
}

} // verus!
