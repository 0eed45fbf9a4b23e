//! What a scan decides: where it looks for the bill of materials of an
//! image, and which bill of materials each container of a workload gets.
//! Reading files is left to the caller, which hands the outcome back.

use vstd::prelude::*;

use crate::layer::{ContainerSbom, ContainerSbomModel, LayerModel, Sbom};
use crate::manifest::{ContainerModel, Workload};
use crate::text::{ascii_alnum, ascii_lower, chars_of, is_ascii_alnum, lower_char, string_of};

verus! {

broadcast use vstd::seq_lib::group_seq_properties;

/// What to scan: a manifest file or directory, and an advisory feed.
#[derive(Debug, Clone, PartialEq, Eq)]
pub struct ScanOptions {
    pub target: String,
    pub cve_feed: String,
}

impl ScanOptions {
    /// Options that scan `target` against the feed at `cve_feed`.
    pub fn new(target: String, cve_feed: String) -> (r: Self)
        ensures
            r.target@ == target@,
            r.cve_feed@ == cve_feed@,
    {
        ScanOptions { target, cve_feed }
    }
}

/// One character of an image reference in a file name: ASCII letters and
/// digits in lower case, anything else `_`.
pub open spec fn file_name_char(c: char) -> char {
    if is_ascii_alnum(c) {
        ascii_lower(c)
    } else {
        '_'
    }
}

/// `s` without its leading `_` characters.
pub open spec fn trim_underscores_start(s: Seq<char>) -> Seq<char>
    decreases s.len(),
{
    if s.len() > 0 && s[0] == '_' {
        trim_underscores_start(s.drop_first())
    } else {
        s
    }
}

/// `s` without its trailing `_` characters.
pub open spec fn trim_underscores_end(s: Seq<char>) -> Seq<char>
    decreases s.len(),
{
    if s.len() > 0 && s.last() == '_' {
        trim_underscores_end(s.drop_last())
    } else {
        s
    }
}

/// The file name stem of an image reference: each character through
/// [`file_name_char`], then `_` trimmed from both ends (`trim_matches('_')`).
pub open spec fn sanitized_image(image: Seq<char>) -> Seq<char> {
    trim_underscores_end(trim_underscores_start(image.map_values(|c: char| file_name_char(c))))
}

proof fn lemma_trim_underscores_start_step(s: Seq<char>, i: int)
    requires
        0 <= i < s.len(),
        s[i] == '_',
    ensures
        trim_underscores_start(s.subrange(i, s.len() as int)) == trim_underscores_start(
            s.subrange(i + 1, s.len() as int),
        ),
{
    assert(s.subrange(i, s.len() as int).drop_first() =~= s.subrange(i + 1, s.len() as int));
}

proof fn lemma_trim_underscores_end_step(s: Seq<char>, j: int)
    requires
        0 < j <= s.len(),
        s[j - 1] == '_',
    ensures
        trim_underscores_end(s.subrange(0, j)) == trim_underscores_end(s.subrange(0, j - 1)),
{
    assert(s.subrange(0, j).drop_last() =~= s.subrange(0, j - 1));
}

/// The file name stem under which a bill of materials of an image is looked
/// up (see [`sanitized_image`]): `alpine:3.18` gives `alpine_3_18`.
#[verifier::rlimit(40)]
#[verifier::spinoff_prover]
pub fn sanitize_image_ref(image: &str) -> (r: String)
    ensures
        r@ == sanitized_image(image@),
{
    let chars = chars_of(image);
    let mut mapped: Vec<char> = Vec::new();
    let mut i: usize = 0;
    while i < chars.len()
        invariant
            i <= chars.len(),
            chars@ == image@,
            mapped@ == chars@.take(i as int).map_values(|c: char| file_name_char(c)),
        decreases chars.len() - i,
    {
        let c = chars[i];
        let out = if ascii_alnum(c) {
            lower_char(c)
        } else {
            '_'
        };
        mapped.push(out);
        i = i + 1;
        assert(mapped@ =~= chars@.take(i as int).map_values(|c: char| file_name_char(c)));
    }
    assert(chars@.take(chars.len() as int) =~= chars@);
    let ghost all = mapped@;
    let mut lo: usize = 0;
    assert(all.subrange(0, all.len() as int) =~= all);
    while lo < mapped.len() && mapped[lo] == '_'
        invariant
            lo <= mapped.len(),
            all == mapped@,
            trim_underscores_start(all) == trim_underscores_start(
                all.subrange(lo as int, all.len() as int),
            ),
        decreases mapped.len() - lo,
    {
        proof {
            lemma_trim_underscores_start_step(all, lo as int);
        }
        lo = lo + 1;
    }
    let ghost start = all.subrange(lo as int, all.len() as int);
    assert(trim_underscores_start(start) == start) by {
        if start.len() > 0 {
            assert(start[0] == all[lo as int]);
        }
    }
    let mut hi: usize = mapped.len();
    assert(start.subrange(0, start.len() as int) =~= start);
    while hi > lo && mapped[hi - 1] == '_'
        invariant
            lo <= hi <= mapped.len(),
            all == mapped@,
            start == all.subrange(lo as int, all.len() as int),
            trim_underscores_end(start) == trim_underscores_end(all.subrange(lo as int, hi as int)),
        decreases hi,
    {
        proof {
            let k = (hi - lo) as int;
            let part = all.subrange(lo as int, hi as int);
            lemma_trim_underscores_end_step(part, k);
            assert(part.subrange(0, k) =~= part);
            assert(part.subrange(0, k - 1) =~= all.subrange(lo as int, hi - 1));
        }
        hi = hi - 1;
    }
    let ghost kept = all.subrange(lo as int, hi as int);
    assert(trim_underscores_end(kept) == kept) by {
        if kept.len() > 0 {
            assert(kept.last() == all[hi - 1]);
        }
    }
    let slice = crate::text::slice_chars(&mapped, lo, hi);
    string_of(slice.as_slice())
}

proof fn lemma_trim_underscores_start_shape(s: Seq<char>)
    ensures
        exists|k: int| 0 <= k <= s.len() && trim_underscores_start(s) == s.subrange(k, s.len() as int),
        trim_underscores_start(s).len() > 0 ==> trim_underscores_start(s)[0] != '_',
    decreases s.len(),
{
    if s.len() > 0 && s[0] == '_' {
        lemma_trim_underscores_start_shape(s.drop_first());
        let k = choose|k: int|
            0 <= k <= s.drop_first().len() && trim_underscores_start(s.drop_first())
                == s.drop_first().subrange(k, s.drop_first().len() as int);
        assert(s.drop_first().subrange(k, s.drop_first().len() as int) =~= s.subrange(
            k + 1,
            s.len() as int,
        ));
    } else {
        assert(s.subrange(0, s.len() as int) =~= s);
    }
}

proof fn lemma_trim_underscores_end_shape(s: Seq<char>)
    ensures
        exists|k: int| 0 <= k <= s.len() && trim_underscores_end(s) == s.subrange(0, k),
        trim_underscores_end(s).len() > 0 ==> trim_underscores_end(s).last() != '_',
    decreases s.len(),
{
    if s.len() > 0 && s.last() == '_' {
        lemma_trim_underscores_end_shape(s.drop_last());
        let k = choose|k: int|
            0 <= k <= s.drop_last().len() && trim_underscores_end(s.drop_last())
                == s.drop_last().subrange(0, k);
        assert(s.drop_last().subrange(0, k) =~= s.subrange(0, k));
    } else {
        assert(s.subrange(0, s.len() as int) =~= s);
    }
}

/// A sanitized image reference holds only lower-case ASCII letters, digits
/// and `_`, and neither starts nor ends with `_`.
pub proof fn sanitized_image_is_a_file_stem(image: Seq<char>)
    ensures
        forall|i: int|
            0 <= i < sanitized_image(image).len() ==> {
                let c = #[trigger] sanitized_image(image)[i];
                c == '_' || ('a' <= c <= 'z') || ('0' <= c <= '9')
            },
        sanitized_image(image).len() > 0 ==> sanitized_image(image)[0] != '_'
            && sanitized_image(image).last() != '_',
{
    let mapped = image.map_values(|c: char| file_name_char(c));
    let start = trim_underscores_start(mapped);
    let r = sanitized_image(image);
    lemma_trim_underscores_start_shape(mapped);
    lemma_trim_underscores_end_shape(start);
    let a = choose|k: int| 0 <= k <= mapped.len() && start == mapped.subrange(k, mapped.len() as int);
    let b = choose|k: int| 0 <= k <= start.len() && r == start.subrange(0, k);
    assert forall|i: int| 0 <= i < r.len() implies {
        let c = #[trigger] r[i];
        c == '_' || ('a' <= c <= 'z') || ('0' <= c <= '9')
    } by {
        assert(r[i] == mapped[a + i]);
        let c = image[a + i];
        assert(mapped[a + i] == file_name_char(c));
    }
    if r.len() > 0 {
        assert(r[0] == start[0]);
    }
}

/// The parent of a path as `Path::parent` gives it, where there is one.
pub uninterp spec fn parent_path(path: Seq<char>) -> Option<Seq<char>>;

/// The path `part` joined onto `base` as `Path::join` gives it.
pub uninterp spec fn joined_path(base: Seq<char>, part: Seq<char>) -> Seq<char>;

/// Whether `Path::is_absolute` holds of a path.
pub uninterp spec fn absolute_path(path: Seq<char>) -> bool;

/// `i` is the position of the last `.` of `name`.
pub open spec fn last_dot_at(name: Seq<char>, i: int) -> bool {
    0 <= i < name.len() && name[i] == '.' && forall|j: int| i < j < name.len() ==> name[j] != '.'
}

/// The extension of a file name as `Path::extension` documents it: none
/// without a file name, none without a `.` in it, none where its only `.`
/// starts it, else the part after its last `.`.
pub open spec fn extension_of_name(name: Option<Seq<char>>) -> Option<Seq<char>> {
    match name {
        None => None,
        Some(n) => if exists|i: int| last_dot_at(n, i) {
            let i = choose|i: int| last_dot_at(n, i);
            if i == 0 {
                None
            } else {
                Some(n.skip(i + 1))
            }
        } else {
            None
        },
    }
}

/// The extension of a path: that of its file name (see [`extension_of_name`]).
pub open spec fn path_extension(path: Seq<char>) -> Option<Seq<char>> {
    extension_of_name(path_file_name(path))
}

/// The last component of a path as `Path::file_name` gives it, where there
/// is one.
pub uninterp spec fn path_file_name(path: Seq<char>) -> Option<Seq<char>>;

/// `std::path::Path::file_name`, as a string; named [`path_file_name`] as
/// [`path_parent`] is.
#[verifier::external_body]
fn path_file_name_of(path: &str) -> (r: Option<String>)
    ensures
        r.deep_view() == path_file_name(path@),
{
    std::path::Path::new(path).file_name().map(|name| name.to_string_lossy().into_owned())
}

/// `std::path::Path::parent`, as a string.  The result is named
/// ([`parent_path`]): it depends on the path alone, under the path rules of
/// the platform the library is built for.  A path built from a `&str` is
/// valid UTF-8, so the conversion back loses nothing.
#[verifier::external_body]
fn path_parent(path: &str) -> (r: Option<String>)
    ensures
        r.deep_view() == parent_path(path@),
{
    std::path::Path::new(path).parent().map(|p| p.to_string_lossy().into_owned())
}

/// `std::path::Path::join`, as a string; named [`joined_path`] as
/// [`path_parent`] is.
#[verifier::external_body]
fn path_join(base: &str, part: &str) -> (r: String)
    ensures
        r@ == joined_path(base@, part@),
{
    std::path::Path::new(base).join(part).to_string_lossy().into_owned()
}

/// `std::path::Path::is_absolute`; named [`absolute_path`] as
/// [`path_parent`] is.
#[verifier::external_body]
fn path_is_absolute(path: &str) -> (r: bool)
    ensures
        r == absolute_path(path@),
{
    std::path::Path::new(path).is_absolute()
}

/// `std::path::Path::extension`, as a string: the extension of the path's
/// file name ([`path_file_name`]) as std documents it (see
/// [`extension_of_name`]).
#[verifier::external_body]
fn path_extension_of(path: &str) -> (r: Option<String>)
    ensures
        r.deep_view() == path_extension(path@),
{
    std::path::Path::new(path).extension().map(|e| e.to_string_lossy().into_owned())
}

/// Where a scan looks for bills of materials: the target itself where it is
/// a directory, else its parent, else `.`.
pub open spec fn base_dir_model(target: Seq<char>, target_is_dir: bool) -> Seq<char> {
    if target_is_dir {
        target
    } else {
        match parent_path(target) {
            Some(p) => p,
            None => "."@,
        }
    }
}

/// Where a scan looks for bills of materials (see [`base_dir_model`]);
/// whether the target is a directory is for the caller to find out.
pub fn target_base_dir(target: &str, target_is_dir: bool) -> (r: String)
    ensures
        r@ == base_dir_model(target@, target_is_dir),
{
    if target_is_dir {
        target.to_owned()
    } else {
        match path_parent(target) {
            Some(p) => p,
            None => ".".to_owned(),
        }
    }
}

/// The paths at which the bill of materials of an image may lie, in the
/// order they are tried: the image reference as a path (joined onto the base
/// directory unless absolute), then `sbom/<stem>.json` under the base
/// directory and under the advisory feed, where `<stem>` is the sanitized
/// image reference.
pub open spec fn sbom_candidates_model(image: Seq<char>, base_dir: Seq<char>, cve_feed: Seq<char>) -> Seq<
    Seq<char>,
> {
    let file = sanitized_image(image) + ".json"@;
    seq![
        if absolute_path(image) {
            image
        } else {
            joined_path(base_dir, image)
        },
        joined_path(joined_path(base_dir, "sbom"@), file),
        joined_path(joined_path(cve_feed, "sbom"@), file),
    ]
}

/// The paths at which the bill of materials of an image may lie (see
/// [`sbom_candidates_model`]).
pub fn sbom_candidates(image: &str, base_dir: &str, cve_feed: &str) -> (r: Vec<String>)
    ensures
        r.deep_view() == sbom_candidates_model(image@, base_dir@, cve_feed@),
{
    let first = if path_is_absolute(image) {
        image.to_owned()
    } else {
        path_join(base_dir, image)
    };
    let mut file = sanitize_image_ref(image);
    file.append(".json");
    let under_base = path_join(base_dir, "sbom");
    let under_feed = path_join(cve_feed, "sbom");
    let second = path_join(under_base.as_str(), file.as_str());
    let third = path_join(under_feed.as_str(), file.as_str());
    let mut r: Vec<String> = Vec::new();
    r.push(first);
    r.push(second);
    r.push(third);
    assert(r.deep_view() =~= sbom_candidates_model(image@, base_dir@, cve_feed@));
    r
}

/// A candidate can be read as a bill of materials when it is a file and its
/// extension is `json`.
pub open spec fn usable_sbom(path: Seq<char>, is_file: bool) -> bool {
    is_file && path_extension(path) == Some("json"@)
}

/// The first candidate that can be read as a bill of materials, where there
/// is one; `is_file[i]` says whether `candidates[i]` is a file.
pub fn resolve_sbom_path(candidates: &Vec<String>, is_file: &Vec<bool>) -> (r: Option<String>)
    requires
        candidates.len() == is_file.len(),
    ensures
        match r {
            Some(p) => exists|i: int|
                0 <= i < candidates.len() && p@ == candidates@[i]@ && usable_sbom(
                    candidates@[i]@,
                    is_file@[i],
                ) && forall|j: int| 0 <= j < i ==> !usable_sbom(candidates@[j]@, is_file@[j]),
            None => forall|j: int| 0 <= j < candidates.len() ==> !usable_sbom(candidates@[j]@, is_file@[j]),
        },
{
    let mut i: usize = 0;
    while i < candidates.len()
        invariant
            i <= candidates.len() == is_file.len(),
            forall|j: int| 0 <= j < i ==> !usable_sbom(candidates@[j]@, is_file@[j]),
        decreases candidates.len() - i,
    {
        let path = &candidates[i];
        if is_file[i] {
            let usable = match path_extension_of(path.as_str()) {
                Some(extension) => crate::text::str_eq(extension.as_str(), "json"),
                None => false,
            };
            if usable {
                return Some(path.clone());
            }
        }
        i = i + 1;
    }
    None
}

/// The container bill of materials for each container of a workload, in
/// order: the one loaded for it, else one without layers that names the
/// container and its image.
pub open spec fn workload_sbom_model(
    containers: Seq<ContainerModel>,
    loaded: Seq<Option<ContainerSbomModel>>,
) -> Seq<ContainerSbomModel> {
    Seq::new(
        containers.len(),
        |i: int|
            match loaded[i] {
                Some(s) => s,
                None => ContainerSbomModel {
                    container: containers[i].name,
                    image: containers[i].image,
                    layers: Seq::<LayerModel>::empty(),
                },
            },
    )
}

/// The bill of materials of a workload from what was loaded for each of its
/// containers (see [`workload_sbom_model`]).
pub fn load_workload_sbom(workload: &Workload, loaded: Vec<Option<ContainerSbom>>) -> (r: Sbom)
    requires
        loaded.len() == workload.containers.len(),
    ensures
        r@ == workload_sbom_model(workload@.containers, loaded.deep_view()),
{
    let ghost target = workload_sbom_model(workload@.containers, loaded.deep_view());
    let mut sbom = Sbom::empty();
    let mut rest = loaded;
    let ghost all = rest.deep_view();
    let mut i: usize = 0;
    assert(all.skip(0) =~= all);
    while rest.len() > 0
        invariant
            i + rest.len() == workload.containers.len(),
            all.len() == workload.containers.len(),
            target == workload_sbom_model(workload@.containers, all),
            rest.deep_view() == all.skip(i as int),
            sbom@ == target.take(i as int),
        decreases rest.len(),
    {
        let ghost before = rest.deep_view();
        assert(before[0] == rest@[0].deep_view());
        let entry = rest.remove(0);
        assert(rest.deep_view() =~= all.skip(i + 1)) by {
            assert forall|k: int| 0 <= k < rest@.len() implies rest.deep_view()[k] == all.skip(
                i + 1,
            )[k] by {
                assert(all.skip(i as int)[k + 1] == all.skip(i + 1)[k]);
            }
        }
        let container = &workload.containers[i];
        let ghost model = workload@.containers[i as int];
        assert(model == container@);
        let item = match entry {
            Some(found) => found,
            None => ContainerSbom::empty(
                container.name.clone(),
                match &container.image {
                    Some(image) => Some(image.clone()),
                    None => None,
                },
            ),
        };
        assert(item@ == target[i as int]);
        let ghost previous = sbom@;
        sbom.containers.push(item);
        assert(sbom@ =~= previous.push(item@));
        i = i + 1;
        assert(sbom@ =~= target.take(i as int));
    }
    assert(target.take(i as int) =~= target);
    sbom
}

/// What the walk of an advisory feed does with one directory entry.
#[derive(Debug, Clone, Copy, PartialEq, Eq, Structural)]
pub enum FeedEntryAction {
    /// Leave the entry alone.
    Skip,
    /// Walk into the directory.
    Descend,
    /// Read the file as advisories.
    Collect,
}

/// The walk of an advisory feed skips directories named `sbom`, which hold
/// bills of materials, walks into other directories, and reads files whose
/// extension is `json`; it leaves everything else alone.
pub open spec fn feed_entry_model(
    file_name: Option<Seq<char>>,
    extension: Option<Seq<char>>,
    is_dir: bool,
    is_file: bool,
) -> FeedEntryAction {
    if is_dir {
        if file_name == Some("sbom"@) {
            FeedEntryAction::Skip
        } else {
            FeedEntryAction::Descend
        }
    } else if is_file && extension == Some("json"@) {
        FeedEntryAction::Collect
    } else {
        FeedEntryAction::Skip
    }
}

/// What the walk of an advisory feed does with the entry at `path` (see
/// [`feed_entry_model`]); what kind of entry it is, is for the caller to
/// find out.
pub fn feed_entry_action(path: &str, is_dir: bool, is_file: bool) -> (r: FeedEntryAction)
    ensures
        r == feed_entry_model(path_file_name(path@), path_extension(path@), is_dir, is_file),
{
    if is_dir {
        let is_sbom = match path_file_name_of(path) {
            Some(name) => crate::text::str_eq(name.as_str(), "sbom"),
            None => false,
        };
        if is_sbom {
            FeedEntryAction::Skip
        } else {
            FeedEntryAction::Descend
        }
    } else if is_file {
        let is_json = match path_extension_of(path) {
            Some(extension) => crate::text::str_eq(extension.as_str(), "json"),
            None => false,
        };
        if is_json {
            FeedEntryAction::Collect
        } else {
            FeedEntryAction::Skip
        }
    } else {
        FeedEntryAction::Skip
    }
}

} // verus!
