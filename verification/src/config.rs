//! Launcher configuration: the optional settings document and the values the
//! launcher derives from it. Reading the settings file and parsing its JSON
//! stay with the embedder; this module decides which source wins and what the
//! derived identifiers are.

use vstd::prelude::*;

use crate::protocol::{join_path, spec_join};

verus! {

/// The launcher settings document.
#[derive(Debug, Clone, PartialEq, Eq)]
pub struct Settings {
    pub title: Option<String>,
    pub version: Option<String>,
    pub author: Option<String>,
}

/// Chooses the settings in force: an embedded document that parsed wins over
/// whatever the disk fallback yielded; a document that failed to parse counts
/// as absent.
pub fn load_settings(embedded: Option<Settings>, fallback: Option<Settings>) -> (r: Option<
    Settings,
>)
    ensures
        r == if embedded is Some {
            embedded
        } else {
            fallback
        },
{
    match embedded {
        Some(s) => Some(s),
        None => fallback,
    }
}

/// A string with every space removed.
pub open spec fn spec_remove_spaces(s: Seq<char>) -> Seq<char>
    decreases s.len(),
{
    if s.len() == 0 {
        Seq::empty()
    } else {
        spec_remove_spaces(s.drop_last()) + (if s.last() == ' ' {
            Seq::<char>::empty()
        } else {
            seq![s.last()]
        })
    }
}

pub fn remove_spaces(s: &str) -> (r: String)
    ensures
        r@ == spec_remove_spaces(s@),
{
    let sl = s.unicode_len();
    let mut r = String::new();
    let mut i: usize = 0;
    while i < sl
        invariant
            i <= sl,
            sl == s@.len(),
            r@ == spec_remove_spaces(s@.subrange(0, i as int)),
        decreases sl - i,
    {
        let ch = s.get_char(i);
        if ch != ' ' {
            r.append(s.substring_char(i, i + 1));
        }
        proof {
            let pre = s@.subrange(0, i as int);
            let cur = s@.subrange(0, i as int + 1);
            assert(cur.drop_last() =~= pre);
            assert(cur.last() == s@[i as int]);
            if ch != ' ' {
                assert(s@.subrange(i as int, i as int + 1) =~= seq![s@[i as int]]);
            }
            assert(r@ =~= spec_remove_spaces(cur));
        }
        i = i + 1;
    }
    proof {
        assert(s@.subrange(0, sl as int) =~= s@);
    }
    r
}

/// The application identity the launcher registers for task grouping:
/// `Pytron.<author>.<title>` with spaces stripped, the author defaulting to
/// `User` and the title to the shell's own name.
pub open spec fn spec_app_id(author: Option<Seq<char>>, title: Option<Seq<char>>) -> Seq<char> {
    "Pytron."@ + spec_remove_spaces(
        match author {
            Some(a) => a,
            None => "User"@,
        },
    ) + "."@ + spec_remove_spaces(
        match title {
            Some(t) => t,
            None => "Pytron App"@,
        },
    )
}

pub fn app_id(settings: Option<&Settings>) -> (r: String)
    ensures
        r@ == spec_app_id(
            match settings {
                Some(s) => match s.author {
                    Some(a) => Some(a@),
                    None => None,
                },
                None => None,
            },
            match settings {
                Some(s) => match s.title {
                    Some(t) => Some(t@),
                    None => None,
                },
                None => None,
            },
        ),
{
    let author: &str = match settings {
        Some(s) => match &s.author {
            Some(a) => a.as_str(),
            None => "User",
        },
        None => "User",
    };
    let title: &str = match settings {
        Some(s) => match &s.title {
            Some(t) => t.as_str(),
            None => "Pytron App",
        },
        None => "Pytron App",
    };
    let mut r = String::from_str("Pytron.");
    let a = remove_spaces(author);
    r.append(a.as_str());
    r.append(".");
    let t = remove_spaces(title);
    r.append(t.as_str());
    r
}

/// Where the launcher runs from and where its support files live: the root
/// is the executable's directory, and the support directory is `_internal`
/// beside it when that exists, the root itself otherwise. Whether `_internal`
/// exists is the caller's filesystem lookup.
pub fn find_internal_dir(root: &str, internal_exists: bool) -> (r: (String, String))
    ensures
        r.0@ == root@,
        r.1@ == if internal_exists {
            spec_join(root@, "_internal"@)
        } else {
            root@
        },
{
    let internal = if internal_exists {
        join_path(root, "_internal")
    } else {
        String::from_str(root)
    };
    (String::from_str(root), internal)
}

} // verus!
