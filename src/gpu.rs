use vstd::prelude::*;
use vstd::string::*;
use crate::app_tokens::{is_blank, trimmed_end};
use crate::numtext::str_eq;
use crate::predictive::texts;

verus! {

/// Start of `s[i..e]` once leading blanks are dropped.
pub open spec fn trimmed_start(s: Seq<char>, i: int, e: int) -> int
    decreases e - i,
{
    if 0 <= i < e && e <= s.len() && is_blank(s[i]) { trimmed_start(s, i + 1, e) } else { i }
}

/// Position of the first comma at or after `i`, or the end of the text.
pub open spec fn comma_from(s: Seq<char>, i: int) -> int
    decreases s.len() - i,
{
    if i < 0 || i >= s.len() || s[i] == ',' { i } else { comma_from(s, i + 1) }
}

/// `s[i..e]` without surrounding blanks.
pub open spec fn trimmed(s: Seq<char>, i: int, e: int) -> Seq<char> {
    let sub = s.subrange(i, e);
    let end = trimmed_end(sub, sub.len() as int);
    let start = trimmed_start(sub, 0, end);
    sub.subrange(start, end)
}

/// The non-empty, trimmed comma-separated entries of `s` from position `i` on.
pub open spec fn entries_from(s: Seq<char>, i: int) -> Seq<Seq<char>>
    decreases s.len() - i,
{
    if i < 0 || i > s.len() {
        Seq::empty()
    } else {
        let e = comma_from(s, i);
        let t = trimmed(s, i, e);
        let head = if t.len() > 0 { seq![t] } else { Seq::<Seq<char>>::empty() };
        if i <= e < s.len() { head + entries_from(s, e + 1) } else { head }
    }
}

/// The device filter that a setting gives: none where it is absent, empty or `all`;
/// otherwise its non-empty comma-separated entries, trimmed.
pub open spec fn filter_of(raw: Option<Seq<char>>) -> Option<Seq<Seq<char>>> {
    match raw {
        None => None,
        Some(s) => if s.len() == 0 || s == "all"@ { None } else { Some(entries_from(s, 0)) },
    }
}

fn comma_from_exec(s: &str, n: usize, i: usize) -> (r: usize)
    requires
        n == s@.len(),
        i <= n,
    ensures
        r == comma_from(s@, i as int),
        i <= r <= n,
{
    let mut j = i;
    while j < n && s.get_char(j) != ','
        invariant
            n == s@.len(),
            i <= j <= n,
            comma_from(s@, j as int) == comma_from(s@, i as int),
        decreases n - j,
    {
        j = j + 1;
    }
    j
}

pub(crate) fn trim_exec(sub: &str) -> (r: &str)
    ensures
        r@ == trimmed(sub@, 0, sub@.len() as int),
{
    let n = sub.unicode_len();
    assert(sub@.subrange(0, n as int) =~= sub@);
    let mut e = n;
    while e > 0 && (sub.get_char(e - 1) == ' ' || sub.get_char(e - 1) == '\t' || sub.get_char(e - 1) == '\r')
        invariant
            n == sub@.len(),
            e <= n,
            trimmed_end(sub@, e as int) == trimmed_end(sub@, n as int),
        decreases e,
    {
        e = e - 1;
    }
    let mut b: usize = 0;
    while b < e && (sub.get_char(b) == ' ' || sub.get_char(b) == '\t' || sub.get_char(b) == '\r')
        invariant
            n == sub@.len(),
            b <= e <= n,
            e == trimmed_end(sub@, n as int),
            trimmed_start(sub@, b as int, e as int) == trimmed_start(sub@, 0, e as int),
        decreases e - b,
    {
        b = b + 1;
    }
    sub.substring_char(b, e)
}

/// Reads a device filter setting.
pub fn build_filter(raw: Option<&str>) -> (r: Option<Vec<String>>)
    ensures
        match r {
            None => filter_of(match raw { Some(s) => Some(s@), None => None }) is None,
            Some(v) => filter_of(match raw { Some(s) => Some(s@), None => None }) == Some(
                texts(v@),
            ),
        },
{
    let s = match raw {
        None => return None,
        Some(s) => s,
    };
    let n = s.unicode_len();
    if n == 0 || str_eq(s, "all") {
        return None;
    }
    let mut out: Vec<String> = Vec::new();
    let mut i: usize = 0;
    let ghost full = entries_from(s@, 0);
    loop
        invariant
            n == s@.len(),
            i <= n,
            full == entries_from(s@, 0),
            full == texts(out@) + entries_from(s@, i as int),
            raw == Some(s),
            s@ != "all"@,
            n > 0,
        decreases n - i,
    {
        let e = comma_from_exec(s, n, i);
        let t = trim_exec(s.substring_char(i, e));
        assert(t@ == trimmed(s@, i as int, e as int)) by {
            assert(s@.subrange(i as int, e as int).subrange(0, (e - i) as int) =~= s@.subrange(i as int, e as int));
        }
        let ghost before = out@;
        if t.unicode_len() > 0 {
            out.push(String::from_str(t));
        }
        if e < n {
            proof {
                assert(texts(out@) =~= texts(before) + (if t@.len() > 0 {
                    seq![t@]
                } else {
                    Seq::<Seq<char>>::empty()
                }));
            }
            i = e + 1;
        } else {
            proof {
                assert(texts(out@) =~= texts(before) + (if t@.len() > 0 {
                    seq![t@]
                } else {
                    Seq::<Seq<char>>::empty()
                }));
                assert(full =~= texts(out@));
            }
            return Some(out);
        }
    }
}

/// Whether a device passes the filter: there is none, or it lists the device's UUID or index.
pub open spec fn visible(filter: Option<Seq<Seq<char>>>, uuid: Seq<char>, index: Seq<char>) -> bool {
    match filter {
        None => true,
        Some(f) => f.contains(uuid) || f.contains(index),
    }
}

pub fn is_visible(filter: &Option<Vec<String>>, uuid: &str, index: &str) -> (r: bool)
    ensures
        r == visible(match filter { Some(v) => Some(texts(v@)), None => None }, uuid@, index@),
{
    match filter {
        None => true,
        Some(v) => {
            let ghost f = texts(v@);
            let mut i: usize = 0;
            while i < v.len()
                invariant
                    i <= v@.len(),
                    f == texts(v@),
                    *filter == Some(*v),
                    forall|k: int| 0 <= k < i ==> f[k] != uuid@ && f[k] != index@,
                decreases v@.len() - i,
            {
                if str_eq(v[i].as_str(), uuid) || str_eq(v[i].as_str(), index) {
                    assert(f[i as int] == v@[i as int]@);
                    assert(f.contains(uuid@) || f.contains(index@));
                    return true;
                }
                i = i + 1;
            }
            assert(!f.contains(uuid@)) by {
                if f.contains(uuid@) {
                    let w = choose|w: int| 0 <= w < f.len() && f[w] == uuid@;
                    assert(f[w] != uuid@);
                }
            }
            assert(!f.contains(index@)) by {
                if f.contains(index@) {
                    let w = choose|w: int| 0 <= w < f.len() && f[w] == index@;
                    assert(f[w] != index@);
                }
            }
            false
        },
    }
}

/// `s` with every dot replaced by a dash.
pub open spec fn dots_to_dashes(s: Seq<char>) -> Seq<char> {
    s.map_values(|c: char| if c == '.' { '-' } else { c })
}

/// The compatibility resource name of a device: `<prefix>/gpu`, or `<prefix>/mig-<profile>`
/// for a slice, with the profile's dots written as dashes.
pub open spec fn resource_name_of(prefix: Seq<char>, profile: Option<Seq<char>>) -> Seq<char> {
    match profile {
        Some(p) => prefix + "/mig-"@ + dots_to_dashes(p),
        None => prefix + "/gpu"@,
    }
}

pub fn k8s_resource_name(prefix: &str, mig_profile: Option<&str>) -> (r: String)
    ensures
        r@ == resource_name_of(prefix@, match mig_profile { Some(p) => Some(p@), None => None }),
{
    let mut s = String::from_str(prefix);
    match mig_profile {
        None => {
            s.append("/gpu");
            s
        },
        Some(p) => {
            s.append("/mig-");
            let ghost base = s@;
            let n = p.unicode_len();
            let mut i: usize = 0;
            while i < n
                invariant
                    n == p@.len(),
                    i <= n,
                    s@ == base + dots_to_dashes(p@.subrange(0, i as int)),
                decreases n - i,
            {
                let start = i;
                let mut j = i;
                while j < n && p.get_char(j) != '.'
                    invariant
                        n == p@.len(),
                        start <= j <= n,
                        forall|k: int| start <= k < j ==> p@[k] != '.',
                    decreases n - j,
                {
                    j = j + 1;
                }
                s.append(p.substring_char(start, j));
                proof {
                    let piece = p@.subrange(start as int, j as int);
                    assert forall|k: int| 0 <= k < piece.len() implies piece[k] != '.' by {
                        assert(piece[k] == p@[start + k]);
                    }
                    assert(piece =~= dots_to_dashes(piece));
                    assert(dots_to_dashes(p@.subrange(0, j as int)) =~= dots_to_dashes(p@.subrange(0, start as int))
                        + dots_to_dashes(p@.subrange(start as int, j as int)));
                }
                if j < n {
                    proof { reveal_strlit("-"); }
                    s.append("-");
                    proof {
                        assert(dots_to_dashes(p@.subrange(0, j + 1)) =~= dots_to_dashes(p@.subrange(0, j as int))
                            + seq!['-']);
                    }
                    i = j + 1;
                } else {
                    i = j;
                }
            }
            assert(p@.subrange(0, n as int) =~= p@);
            s
        },
    }
}

} // verus!
