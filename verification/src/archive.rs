//! Format dispatch and per-entry placement for archive extraction. The
//! container format is detected strictly from the file's extension,
//! case-insensitively, over the closed set `.zip`, `.rar`, `.7z`; any other
//! extension is an unsupported-format error. For each entry the byte-level
//! decoder reports, the placement says which directory to create or which
//! file to write, using the archive-native name verbatim as a relative
//! path. After successful extraction the caller deletes the original
//! archive file; a deletion failure is ignored.

use vstd::prelude::*;
use crate::fetcher::parent_dir_view;
use crate::text::{find_last, find_last_spec, join_slash, join_slash_view};

verus! {

/// The closed set of supported container formats.
#[derive(Clone, Copy, PartialEq, Eq, Structural, Debug)]
pub enum ArchiveFormat {
    Zip,
    Rar,
    SevenZ,
}

/// The file's extension names no supported container format.
#[derive(Clone, Copy, PartialEq, Eq, Structural, Debug)]
pub struct UnsupportedFormat;

/// The characters after the last `.` of `p`; meaningful where one exists.
pub open spec fn extension_view(p: Seq<char>) -> Seq<char> {
    match find_last_spec(p, '.') {
        Some(i) => p.subrange(i + 1, p.len() as int),
        None => Seq::empty(),
    }
}

pub open spec fn is_zip_extension(e: Seq<char>) -> bool {
    e.len() == 3 && (e[0] == 'z' || e[0] == 'Z') && (e[1] == 'i' || e[1] == 'I') && (e[2] == 'p'
        || e[2] == 'P')
}

pub open spec fn is_rar_extension(e: Seq<char>) -> bool {
    e.len() == 3 && (e[0] == 'r' || e[0] == 'R') && (e[1] == 'a' || e[1] == 'A') && (e[2] == 'r'
        || e[2] == 'R')
}

pub open spec fn is_sevenz_extension(e: Seq<char>) -> bool {
    e.len() == 2 && e[0] == '7' && (e[1] == 'z' || e[1] == 'Z')
}

/// The format `p`'s extension names, or `None` where `p` has no `.` or the
/// extension names no supported format.
pub open spec fn format_of(p: Seq<char>) -> Option<ArchiveFormat> {
    if find_last_spec(p, '.') is None {
        None
    } else {
        let e = extension_view(p);
        if is_zip_extension(e) {
            Some(ArchiveFormat::Zip)
        } else if is_rar_extension(e) {
            Some(ArchiveFormat::Rar)
        } else if is_sevenz_extension(e) {
            Some(ArchiveFormat::SevenZ)
        } else {
            None
        }
    }
}

/// Detects the container format of a downloaded file from its extension
/// alone: no byte-level sniffing.
pub fn detect_format(file_path: &str) -> (r: Result<ArchiveFormat, UnsupportedFormat>)
    ensures
        match r {
            Ok(f) => format_of(file_path@) == Some(f),
            Err(_) => format_of(file_path@) is None,
        },
{
    let dot = match find_last(file_path, '.') {
        Some(i) => i,
        None => {
            return Err(UnsupportedFormat);
        },
    };
    proof {
        crate::text::lemma_find_last_spec(file_path@, '.');
    }
    let len: usize = file_path.unicode_len();
    let ext_len: usize = len - (dot + 1);
    let ghost e = extension_view(file_path@);
    proof {
        assert(e =~= file_path@.subrange(dot + 1, len as int));
    }
    if ext_len == 3 {
        let c0 = file_path.get_char(dot + 1);
        let c1 = file_path.get_char(dot + 2);
        let c2 = file_path.get_char(dot + 3);
        proof {
            assert(e[0] == file_path@[dot + 1]);
            assert(e[1] == file_path@[dot + 2]);
            assert(e[2] == file_path@[dot + 3]);
        }
        if (c0 == 'z' || c0 == 'Z') && (c1 == 'i' || c1 == 'I') && (c2 == 'p' || c2 == 'P') {
            return Ok(ArchiveFormat::Zip);
        }
        if (c0 == 'r' || c0 == 'R') && (c1 == 'a' || c1 == 'A') && (c2 == 'r' || c2 == 'R') {
            return Ok(ArchiveFormat::Rar);
        }
        return Err(UnsupportedFormat);
    }
    if ext_len == 2 {
        let c0 = file_path.get_char(dot + 1);
        let c1 = file_path.get_char(dot + 2);
        proof {
            assert(e[0] == file_path@[dot + 1]);
            assert(e[1] == file_path@[dot + 2]);
        }
        if c0 == '7' && (c1 == 'z' || c1 == 'Z') {
            return Ok(ArchiveFormat::SevenZ);
        }
        return Err(UnsupportedFormat);
    }
    Err(UnsupportedFormat)
}

/// What the archive's decoder reports of one entry: its archive-native name
/// and whether it is a directory.
pub struct ArchiveEntryMeta {
    pub name: String,
    pub is_directory: bool,
}

/// Where one archive entry lands. For a directory entry, create the
/// directory and its parents if absent; for a file entry, create the parent
/// directories as needed, then copy the entry's decompressed byte stream to
/// a newly created file at the path.
pub enum ExtractAction {
    MakeDir { path: String },
    WriteFile { path: String, parent_dir: String },
}

/// The mathematical value of an [`ExtractAction`].
#[verifier::ext_equal]
pub enum ExtractActionView {
    MakeDir { path: Seq<char> },
    WriteFile { path: Seq<char>, parent_dir: Seq<char> },
}

impl View for ExtractAction {
    type V = ExtractActionView;

    open spec fn view(&self) -> ExtractActionView {
        match self {
            ExtractAction::MakeDir { path } => ExtractActionView::MakeDir { path: path@ },
            ExtractAction::WriteFile { path, parent_dir } => ExtractActionView::WriteFile {
                path: path@,
                parent_dir: parent_dir@,
            },
        }
    }
}

impl DeepView for ExtractAction {
    type V = ExtractActionView;

    open spec fn deep_view(&self) -> ExtractActionView {
        self.view()
    }
}

/// The placement of one entry of an archive extracted into `dest_dir`:
/// the entry's name verbatim under the destination, a directory creation
/// for a directory entry, a parent creation plus file write for a file
/// entry.
pub open spec fn action_for(dest_dir: Seq<char>, name: Seq<char>, is_directory: bool)
    -> ExtractActionView {
    if is_directory {
        ExtractActionView::MakeDir { path: join_slash_view(dest_dir, name) }
    } else {
        ExtractActionView::WriteFile {
            path: join_slash_view(dest_dir, name),
            parent_dir: parent_dir_view(join_slash_view(dest_dir, name)),
        }
    }
}

/// The placements of a whole archive's entries, in the order the decoder
/// reports them.
pub open spec fn actions_for(dest_dir: Seq<char>, entries: Seq<ArchiveEntryMeta>)
    -> Seq<ExtractActionView>
    decreases entries.len(),
{
    if entries.len() == 0 {
        Seq::empty()
    } else {
        actions_for(dest_dir, entries.drop_last()).push(
            action_for(dest_dir, entries.last().name@, entries.last().is_directory),
        )
    }
}

/// Computes where one archive entry lands under `dest_dir`.
pub fn extract_action(dest_dir: &str, entry_name: &str, is_directory: bool) -> (a: ExtractAction)
    ensures
        a@ == action_for(dest_dir@, entry_name@, is_directory),
{
    let path = join_slash(dest_dir, entry_name);
    if is_directory {
        ExtractAction::MakeDir { path }
    } else {
        let parent = crate::fetcher::parent_dir(path.as_str());
        ExtractAction::WriteFile { path, parent_dir: parent }
    }
}

/// Computes the placement of every entry the decoder reported, in order.
pub fn extract_actions(dest_dir: &str, entries: &Vec<ArchiveEntryMeta>) -> (actions: Vec<
    ExtractAction,
>)
    ensures
        actions.deep_view() == actions_for(dest_dir@, entries@),
{
    let mut actions: Vec<ExtractAction> = Vec::new();
    let mut i: usize = 0;
    proof {
        assert(entries@.take(0) =~= Seq::<ArchiveEntryMeta>::empty());
        assert(actions.deep_view() =~= actions_for(dest_dir@, entries@.take(0)));
    }
    while i < entries.len()
        invariant
            0 <= i <= entries@.len(),
            actions.deep_view() == actions_for(dest_dir@, entries@.take(i as int)),
        decreases entries@.len() - i,
    {
        let e = &entries[i];
        let a = extract_action(dest_dir, e.name.as_str(), e.is_directory);
        let ghost a_v = a@;
        let ghost old_actions = actions.deep_view();
        actions.push(a);
        proof {
            assert(entries@.take(i + 1).drop_last() =~= entries@.take(i as int));
            assert(entries@.take(i + 1).last() == entries@[i as int]);
            assert(actions.deep_view() =~= old_actions.push(a_v));
        }
        i = i + 1;
    }
    proof {
        assert(entries@.take(entries@.len() as int) =~= entries@);
    }
    actions
}

} // verus!
