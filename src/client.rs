use vstd::prelude::*;
use vstd::string::*;
use crate::numtext::str_eq;

verus! {

/// Whether `s` starts with `p`.
pub open spec fn has_prefix(s: Seq<char>, p: Seq<char>) -> bool {
    s.len() >= p.len() && s.subrange(0, p.len() as int) == p
}

/// `s` without its trailing slashes.
pub open spec fn trim_slashes(s: Seq<char>) -> Seq<char>
    decreases s.len(),
{
    if s.len() > 0 && s.last() == '/' { trim_slashes(s.drop_last()) } else { s }
}

/// The base URL of an agent: the address with `http://` in front unless it already names
/// `http://` or `https://`, without trailing slashes.
pub open spec fn base_url_of(addr: Seq<char>) -> Seq<char> {
    trim_slashes(
        if has_prefix(addr, "http://"@) || has_prefix(addr, "https://"@) {
            addr
        } else {
            "http://"@ + addr
        },
    )
}

fn starts_with(s: &str, p: &str) -> (r: bool)
    ensures
        r == has_prefix(s@, p@),
{
    let n = s.unicode_len();
    let m = p.unicode_len();
    if n < m {
        return false;
    }
    str_eq(s.substring_char(0, m), p)
}

fn trim_trailing_slashes(s: &str) -> (r: String)
    ensures
        r@ == trim_slashes(s@),
{
    let n = s.unicode_len();
    let mut end = n;
    assert(s@.subrange(0, n as int) =~= s@);
    while end > 0 && s.get_char(end - 1) == '/'
        invariant
            n == s@.len(),
            end <= n,
            trim_slashes(s@.subrange(0, end as int)) == trim_slashes(s@),
        decreases end,
    {
        proof {
            assert(s@.subrange(0, end as int).drop_last() =~= s@.subrange(0, end - 1));
        }
        end = end - 1;
    }
    let r = String::from_str(s.substring_char(0, end));
    assert(trim_slashes(s@.subrange(0, end as int)) == s@.subrange(0, end as int));
    r
}

/// Talks to a local agent over HTTP.
#[derive(Debug)]
pub struct AgentClient {
    base_url: String,
}

impl AgentClient {
    pub closed spec fn url(&self) -> Seq<char> {
        self.base_url@
    }

    pub fn new(listen_address: &str) -> (r: Self)
        ensures
            r.url() == base_url_of(listen_address@),
    {
        let normalized = if starts_with(listen_address, "http://") || starts_with(
            listen_address,
            "https://",
        ) {
            String::from_str(listen_address)
        } else {
            let mut s = String::from_str("http://");
            s.append(listen_address);
            s
        };
        AgentClient { base_url: trim_trailing_slashes(normalized.as_str()) }
    }

    pub fn base_url(&self) -> (r: &str)
        ensures
            r@ == self.url(),
    {
        self.base_url.as_str()
    }
}

} // verus!
