//! Locations of media on a Matrix content repository.
use vstd::prelude::*;

verus! {

pub open spec fn mxc_scheme() -> Seq<char> {
    seq!['m', 'x', 'c', ':', '/', '/']
}

/// `s` reads `mxc://<server>/<path>`, with a server that holds no slash and
/// neither part empty.
pub open spec fn is_mxc(s: Seq<char>, server: Seq<char>, path: Seq<char>) -> bool {
    &&& s == mxc_scheme() + server + seq!['/'] + path
    &&& server.len() > 0
    &&& !server.contains('/')
    &&& path.len() > 0
}

/// The url is not of the form `mxc://<server>/<path>`.
#[derive(Debug, Clone, Copy, PartialEq, Eq, Structural)]
pub struct MxcUrlError;

impl MxcUrlError {
    pub fn to_string(&self) -> (r: String)
        ensures
            r@ == "invalid mxc url"@,
    {
        "invalid mxc url".to_owned()
    }
}

/// Splits an `mxc://` url into its server name and media path.
pub fn parse_mxc(url: &str) -> (r: Result<(String, String), MxcUrlError>)
    ensures
        r matches Ok((server, path)) ==> is_mxc(url@, server@, path@),
        r is Err <==> forall|server: Seq<char>, path: Seq<char>| !is_mxc(url@, server, path),
{
    let n = url.unicode_len();
    let ghost s = url@;
    if n < 6 || url.get_char(0) != 'm' || url.get_char(1) != 'x' || url.get_char(2) != 'c'
        || url.get_char(3) != ':' || url.get_char(4) != '/' || url.get_char(5) != '/' {
        assert forall|server: Seq<char>, path: Seq<char>| !is_mxc(s, server, path) by {
            if is_mxc(s, server, path) {
                assert(s[0] == 'm' && s[1] == 'x' && s[2] == 'c' && s[3] == ':' && s[4] == '/'
                    && s[5] == '/');
            }
        }
        return Err(MxcUrlError);
    }
    let mut k: usize = 6;
    loop
        invariant
            6 <= k <= n,
            n == s.len(),
            s == url@,
            forall|j: int| 6 <= j < k ==> s[j] != '/',
        ensures
            6 <= k <= n,
            forall|j: int| 6 <= j < k ==> s[j] != '/',
            k == n || s[k as int] == '/',
        decreases n - k,
    {
        if k == n {
            break;
        }
        if url.get_char(k) == '/' {
            break;
        }
        k += 1;
    }
    if k == 6 || k == n || k + 1 == n {
        assert forall|server: Seq<char>, path: Seq<char>| !is_mxc(s, server, path) by {
            if is_mxc(s, server, path) {
                let m = server.len() + 6int;
                assert(s[m] == '/');
                if k < m {
                    assert(s[k as int] == server[k - 6]);
                    assert(server.contains('/'));
                }
                if k > m {
                    assert(s[m] == '/');
                }
            }
        }
        return Err(MxcUrlError);
    }
    let server = url.substring_char(6, k).to_owned();
    let path = url.substring_char(k + 1, n).to_owned();
    proof {
        assert(s =~= mxc_scheme() + server@ + seq!['/'] + path@);
        assert(!server@.contains('/')) by {
            if server@.contains('/') {
                let j = choose|j: int| 0 <= j < server@.len() && #[trigger] server@[j] == '/';
                assert(s[j + 6] == '/');
            }
        }
    }
    assert(is_mxc(s, server@, path@));
    Ok((server, path))
}

} // verus!
