//! The ordered list of directories that may hold application entries.

use vstd::prelude::*;

verus! {

/// `seg` appended to `base` as `Path::join` does for a relative segment.
pub open spec fn path_join(base: Seq<char>, seg: Seq<char>) -> Seq<char> {
    if base.len() == 0 {
        seg
    } else if base.last() == '/' {
        base + seg
    } else {
        base + seq!['/'] + seg
    }
}

/// The pieces of `s` between colons, empty pieces included.
pub open spec fn split_colons(s: Seq<char>) -> Seq<Seq<char>>
    decreases s.len(),
{
    if s.len() == 0 {
        seq![Seq::empty()]
    } else {
        let prev = split_colons(s.drop_last());
        if s.last() == ':' {
            prev.push(Seq::empty())
        } else {
            prev.update(prev.len() - 1, prev.last().push(s.last()))
        }
    }
}

/// The characters of an optional string.
pub open spec fn opt_view(o: Option<&str>) -> Option<Seq<char>> {
    match o {
        Some(s) => Some(s@),
        None => None,
    }
}

/// The user's base directory: the override when it is set and non-empty,
/// else `.local/share` under the home directory, if one is known.
pub open spec fn user_base(data_home: Option<Seq<char>>, home: Option<Seq<char>>) -> Option<Seq<char>> {
    match data_home {
        Some(d) if d.len() > 0 => Some(d),
        _ => match home {
            Some(h) => Some(path_join(h, ".local/share"@)),
            None => None,
        },
    }
}

/// The system-wide base directories: the override list when it is set,
/// else `/usr/local/share` and `/usr/share`.
pub open spec fn system_bases(data_dirs: Option<Seq<char>>) -> Seq<Seq<char>> {
    match data_dirs {
        Some(d) => split_colons(d),
        None => seq!["/usr/local/share"@, "/usr/share"@],
    }
}

/// The application directories: `applications` under the user's base
/// directory first, then under each system-wide base in order.
pub open spec fn application_dirs(
    data_home: Option<Seq<char>>,
    data_dirs: Option<Seq<char>>,
    home: Option<Seq<char>>,
) -> Option<Seq<Seq<char>>> {
    match user_base(data_home, home) {
        Some(u) => Some(
            seq![path_join(u, "applications"@)] + system_bases(data_dirs).map_values(
                |b: Seq<char>| path_join(b, "applications"@),
            ),
        ),
        None => None,
    }
}

/// No base directory for the user's own entries could be found.
#[derive(Debug, Clone, Copy, PartialEq, Eq)]
pub enum ConfigError {
    NoHomeDirectory,
}

impl ConfigError {
    pub fn message(&self) -> (r: String)
        ensures
            r@ == "Couldn't get home dir"@,
    {
        String::from_str("Couldn't get home dir")
    }
}

/// `r` is the result that `application_dirs` gives.
pub open spec fn resolved_as(r: Result<Vec<String>, ConfigError>, dirs: Option<Seq<Seq<char>>>) -> bool {
    match dirs {
        Some(d) => r matches Ok(v) && v.deep_view() == d,
        None => r == Err::<Vec<String>, ConfigError>(ConfigError::NoHomeDirectory),
    }
}

/// `seg` appended to `base` as a path segment.
pub fn join_path(base: &str, seg: &str) -> (r: String)
    ensures
        r@ == path_join(base@, seg@),
{
    let n = base.unicode_len();
    let mut r = String::from_str(base);
    if n > 0 && base.get_char(n - 1) != '/' {
        let sep = "/";
        proof {
            reveal_strlit("/");
        }
        r.append(sep);
    }
    r.append(seg);
    r
}

/// The pieces of `s` between colons, as `std::env::split_paths` gives them on Unix.
pub fn split_path_list(s: &str) -> (r: Vec<String>)
    ensures
        r.deep_view() == split_colons(s@),
{
    let n = s.unicode_len();
    let mut parts: Vec<String> = Vec::new();
    let mut start: usize = 0;
    let mut i: usize = 0;
    assert(s@.take(0) =~= Seq::<char>::empty());
    while i < n
        invariant
            n == s@.len(),
            start <= i <= n,
            split_colons(s@.take(i as int)) == parts.deep_view().push(s@.subrange(start as int, i as int)),
        decreases n - i,
    {
        let c = s.get_char(i);
        assert(s@.take(i + 1).drop_last() =~= s@.take(i as int));
        if c == ':' {
            let piece = s.substring_char(start, i);
            let ghost before = parts.deep_view();
            parts.push(String::from_str(piece));
            assert(parts.deep_view() =~= before.push(s@.subrange(start as int, i as int)));
            start = i + 1;
        } else {
            assert(s@.subrange(start as int, i as int).push(c) =~= s@.subrange(start as int, i + 1));
        }
        i = i + 1;
        assert(s@.subrange(start as int, i as int).len() == 0 ==> s@.subrange(start as int, i as int) =~= Seq::<char>::empty());
    }
    let piece = s.substring_char(start, n);
    let ghost before = parts.deep_view();
    parts.push(String::from_str(piece));
    assert(parts.deep_view() =~= before.push(s@.subrange(start as int, n as int)));
    assert(s@.take(n as int) =~= s@);
    parts
}

/// The application directories for the given override values and home
/// directory, or the error when neither gives the user's base directory.
pub fn resolve_application_dirs(data_home: Option<&str>, data_dirs: Option<&str>, home: Option<&str>) -> (r: Result<Vec<String>, ConfigError>)
    ensures
        resolved_as(r, application_dirs(opt_view(data_home), opt_view(data_dirs), opt_view(home))),
{
    let base: String = match data_home {
        Some(d) if d.unicode_len() > 0 => String::from_str(d),
        _ => match home {
            Some(h) => {
                let sub = ".local/share";
                join_path(h, sub)
            },
            None => {
                return Err(ConfigError::NoHomeDirectory);
            },
        },
    };
    let bases: Vec<String> = match data_dirs {
        Some(d) => split_path_list(d),
        None => {
            let mut v: Vec<String> = Vec::new();
            v.push(String::from_str("/usr/local/share"));
            v.push(String::from_str("/usr/share"));
            assert(v.deep_view() =~= seq!["/usr/local/share"@, "/usr/share"@]);
            v
        },
    };
    let apps = "applications";
    let mut res: Vec<String> = Vec::new();
    res.push(join_path(base.as_str(), apps));
    let ghost sys = bases.deep_view().map_values(|b: Seq<char>| path_join(b, "applications"@));
    let mut i: usize = 0;
    while i < bases.len()
        invariant
            i <= bases.len(),
            apps@ == "applications"@,
            sys == bases.deep_view().map_values(|b: Seq<char>| path_join(b, "applications"@)),
            res.deep_view() == seq![path_join(base@, "applications"@)] + sys.take(i as int),
        decreases bases.len() - i,
    {
        let ghost before = res.deep_view();
        res.push(join_path(bases[i].as_str(), apps));
        assert(res.deep_view() =~= before.push(sys[i as int]));
        assert(sys.take(i + 1) =~= sys.take(i as int).push(sys[i as int]));
        i = i + 1;
    }
    assert(sys.take(i as int) =~= sys);
    Ok(res)
}

/// Relies on `dirs::home_dir`: the user's home directory, if the platform
/// reports one. It depends on the environment, so nothing is stated of it.
#[verifier::external_body]
fn home_dir() -> (r: Option<String>) {
    match dirs::home_dir() {
        Some(p) => Some(p.to_string_lossy().into_owned()),
        None => None,
    }
}

/// The application directories for the given override values; the home
/// directory is looked up only when the user's override is unset or empty.
pub fn find_application_dirs(data_home: Option<&str>, data_dirs: Option<&str>) -> (r: Result<Vec<String>, ConfigError>)
    ensures
        exists|home: Option<Seq<char>>|
            resolved_as(r, #[trigger] application_dirs(opt_view(data_home), opt_view(data_dirs), home)),
        (data_home matches Some(d) && d@.len() > 0) ==> resolved_as(
            r,
            application_dirs(opt_view(data_home), opt_view(data_dirs), None),
        ),
{
    let use_home = match data_home {
        Some(d) => d.unicode_len() == 0,
        None => true,
    };
    if use_home {
        let home = home_dir();
        let r = match &home {
            Some(h) => resolve_application_dirs(data_home, data_dirs, Some(h.as_str())),
            None => resolve_application_dirs(data_home, data_dirs, None),
        };
        proof {
            let hv = match home { Some(h) => Some(h@), None => None };
            assert(resolved_as(r, application_dirs(opt_view(data_home), opt_view(data_dirs), hv)));
        }
        r
    } else {
        let r = resolve_application_dirs(data_home, data_dirs, None);
        assert(resolved_as(r, application_dirs(opt_view(data_home), opt_view(data_dirs), None)));
        r
    }
}

/// Resolution is a function of the environment and the home directory: two
/// results that both meet the contract of `resolve_application_dirs` for the
/// same inputs list the same directories in the same order, or fail alike.
pub proof fn lemma_resolution_is_stable(
    data_home: Option<Seq<char>>,
    data_dirs: Option<Seq<char>>,
    home: Option<Seq<char>>,
    r1: Result<Vec<String>, ConfigError>,
    r2: Result<Vec<String>, ConfigError>,
)
    requires
        resolved_as(r1, application_dirs(data_home, data_dirs, home)),
        resolved_as(r2, application_dirs(data_home, data_dirs, home)),
    ensures
        match (r1, r2) {
            (Ok(a), Ok(b)) => a.deep_view() == b.deep_view(),
            (Err(x), Err(y)) => x == y,
            _ => false,
        },
{
}

} // verus!
