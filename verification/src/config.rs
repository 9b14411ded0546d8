//! Reading the collaborators' plain data: the install root named in the
//! emulator's INI-style configuration, and the installed update version a
//! title's cache file records. The caller reads the files; this module
//! decides what their lines mean.

use vstd::prelude::*;
use crate::text::{find_last, find_last_spec, is_prefix, push_char, str_starts_with};

verus! {

/// The configuration holds no `load_directory=` line: a fatal configuration
/// error, reported to the caller with no partial work performed.
#[derive(Clone, Copy, PartialEq, Eq, Structural, Debug)]
pub struct MissingLoadDirectory;

/// The install root the configuration lines name: the value of the first
/// `load_directory=` line, or `default_dir` where that value is empty, or
/// `None` where no such line exists.
pub open spec fn load_directory_of(lines: Seq<Seq<char>>, default_dir: Seq<char>) -> Option<
    Seq<char>,
>
    decreases lines.len(),
{
    if lines.len() == 0 {
        None
    } else if is_prefix(lines.first(), "load_directory="@) {
        let value = lines.first().subrange(
            "load_directory="@.len() as int,
            lines.first().len() as int,
        );
        if value.len() == 0 {
            Some(default_dir)
        } else {
            Some(value)
        }
    } else {
        load_directory_of(lines.drop_first(), default_dir)
    }
}

/// Scans the configuration lines for the install root.
pub fn resolve_load_directory(lines: &Vec<String>, default_dir: &str) -> (r: Result<
    String,
    MissingLoadDirectory,
>)
    ensures
        match r {
            Ok(d) => load_directory_of(lines.deep_view(), default_dir@) == Some(d@),
            Err(_) => load_directory_of(lines.deep_view(), default_dir@) is None,
        },
{
    let ghost dv = lines.deep_view();
    let mut i: usize = 0;
    proof {
        assert(dv.skip(0) =~= dv);
    }
    while i < lines.len()
        invariant
            0 <= i <= lines@.len(),
            dv == lines.deep_view(),
            dv.len() == lines@.len(),
            load_directory_of(dv, default_dir@) == load_directory_of(
                dv.skip(i as int),
                default_dir@,
            ),
        decreases lines@.len() - i,
    {
        proof {
            assert(dv.skip(i as int).drop_first() =~= dv.skip(i + 1));
            assert(dv.skip(i as int).first() == dv[i as int]);
            assert(dv[i as int] == lines@[i as int]@);
        }
        let line = &lines[i];
        if str_starts_with(line.as_str(), "load_directory=") {
            let prefix_len: usize = "load_directory=".unicode_len();
            let line_len: usize = line.as_str().unicode_len();
            let value = line.as_str().substring_char(prefix_len, line_len).to_owned();
            if value.as_str().unicode_len() == 0 {
                return Ok(default_dir.to_owned());
            } else {
                return Ok(value);
            }
        }
        i = i + 1;
    }
    proof {
        assert(dv.skip(dv.len() as int) =~= Seq::<Seq<char>>::empty());
    }
    Err(MissingLoadDirectory)
}

/// The default install root where the configuration's `load_directory=`
/// value is empty: `<data_dir>/<emulator>/nand`.
pub open spec fn default_load_directory_view(data_dir: Seq<char>, emulator: Seq<char>)
    -> Seq<char> {
    data_dir + seq!['/'] + emulator + seq!['/'] + "nand"@
}

pub fn default_load_directory(data_dir: &str, emulator: &str) -> (r: String)
    ensures
        r@ == default_load_directory_view(data_dir@, emulator@),
{
    let mut s = data_dir.to_owned();
    push_char(&mut s, '/');
    s.append(emulator);
    push_char(&mut s, '/');
    s.append("nand");
    proof {
        assert(s@ =~= default_load_directory_view(data_dir@, emulator@));
    }
    s
}

/// Every line that begins with the update marker `Update (` also holds a
/// closing `)`: what the version-cache scan needs of the first such line to
/// cut the version out of it.
pub open spec fn version_cache_wellformed(lines: Seq<Seq<char>>) -> bool
    decreases lines.len(),
{
    if lines.len() == 0 {
        true
    } else if is_prefix(lines.first(), "Update ("@) {
        find_last_spec(lines.first(), ')') is Some
    } else {
        version_cache_wellformed(lines.drop_first())
    }
}

/// The installed update version the cache lines record: on the first line
/// beginning with `Update (`, the text between the first `(` and the last
/// `)`. `None` where no such line exists: no installed update, not an
/// error.
pub open spec fn installed_version_of(lines: Seq<Seq<char>>) -> Option<Seq<char>>
    decreases lines.len(),
{
    if lines.len() == 0 {
        None
    } else if is_prefix(lines.first(), "Update ("@) {
        match find_last_spec(lines.first(), ')') {
            Some(t) => Some(lines.first().subrange("Update ("@.len() as int, t)),
            None => None,
        }
    } else {
        installed_version_of(lines.drop_first())
    }
}

/// Scans a title's version-cache lines for the installed update version.
pub fn parse_installed_version(lines: &Vec<String>) -> (r: Option<String>)
    requires
        version_cache_wellformed(lines.deep_view()),
    ensures
        match r {
            Some(v) => installed_version_of(lines.deep_view()) == Some(v@),
            None => installed_version_of(lines.deep_view()) is None,
        },
{
    let ghost dv = lines.deep_view();
    let mut i: usize = 0;
    proof {
        assert(dv.skip(0) =~= dv);
    }
    while i < lines.len()
        invariant
            0 <= i <= lines@.len(),
            dv == lines.deep_view(),
            dv.len() == lines@.len(),
            installed_version_of(dv) == installed_version_of(dv.skip(i as int)),
            version_cache_wellformed(dv.skip(i as int)),
        decreases lines@.len() - i,
    {
        proof {
            assert(dv.skip(i as int).drop_first() =~= dv.skip(i + 1));
            assert(dv.skip(i as int).first() == dv[i as int]);
            assert(dv[i as int] == lines@[i as int]@);
        }
        let line = &lines[i];
        if str_starts_with(line.as_str(), "Update (") {
            let from: usize = "Update (".unicode_len();
            let to = match find_last(line.as_str(), ')') {
                Some(t) => t,
                None => {
                    proof {
                        assert(false);
                    }
                    0
                },
            };
            proof {
                crate::text::lemma_find_last_spec(line@, ')');
                reveal_strlit("Update (");
                assert forall|j: int| 0 <= j < from implies line@[j] != ')' by {
                    assert(line@.subrange(0, "Update ("@.len() as int)[j] == line@[j]);
                    assert(line@[j] == "Update ("@[j]);
                }
                assert(to >= from);
            }
            let version = line.as_str().substring_char(from, to).to_owned();
            return Some(version);
        }
        i = i + 1;
    }
    proof {
        assert(dv.skip(dv.len() as int) =~= Seq::<Seq<char>>::empty());
    }
    None
}

} // verus!
