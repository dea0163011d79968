//! Choosing, among the entries found by walking a directory tree, the regular
//! files that carry a requested extension.

use vstd::prelude::*;
use crate::paths::{base_name, base_name_of};
use crate::text::{chars_of, string_of};

verus! {

/// Why an extension cannot be used.
#[derive(Debug, Clone, Copy, PartialEq, Eq, Structural)]
pub enum ExtensionError {
    /// Nothing is left once a leading `.` is dropped.
    Empty,
    /// It holds a `/`, so it would not name a single directory.
    HasSeparator,
}

/// The extension as it is matched and used as a directory name: the user's
/// text without one leading `.`.
pub open spec fn label_of(ext: Seq<char>) -> Seq<char> {
    if ext.len() > 0 && ext[0] == '.' {
        ext.drop_first()
    } else {
        ext
    }
}

/// A label is non-empty and holds no `/`.
pub open spec fn valid_label(label: Seq<char>) -> bool {
    label.len() > 0 && forall|i: int| 0 <= i < label.len() ==> label[i] != '/'
}

/// A file extension, never empty, that is safe to use as one path component.
pub struct ExtensionLabel {
    chars: Vec<char>,
}

impl View for ExtensionLabel {
    type V = Seq<char>;

    closed spec fn view(&self) -> Seq<char> {
        self.chars@
    }
}

impl ExtensionLabel {
    pub closed spec fn wf(&self) -> bool {
        valid_label(self.chars@)
    }

    /// Builds the label for the extension `ext` (given with or without a leading `.`).
    pub fn new(ext: &str) -> (r: Result<ExtensionLabel, ExtensionError>)
        ensures
            r is Ok <==> valid_label(label_of(ext@)),
            r is Ok ==> r->Ok_0@ == label_of(ext@) && r->Ok_0.wf(),
            r == Err::<ExtensionLabel, ExtensionError>(ExtensionError::Empty) <==> label_of(
                ext@,
            ).len() == 0,
            r == Err::<ExtensionLabel, ExtensionError>(ExtensionError::HasSeparator) <==> (
            label_of(ext@).len() > 0 && !valid_label(label_of(ext@))),
    {
        let all = chars_of(ext);
        let mut chars: Vec<char> = Vec::new();
        let start: usize = if all.len() > 0 && all[0] == '.' { 1 } else { 0 };
        let mut i: usize = start;
        assert(label_of(ext@) =~= all@.skip(start as int));
        while i < all.len()
            invariant
                start <= i <= all@.len(),
                label_of(ext@) == all@.skip(start as int),
                chars@ == all@.subrange(start as int, i as int),
                forall|j: int| 0 <= j < chars@.len() ==> chars@[j] != '/',
            decreases all@.len() - i,
        {
            if all[i] == '/' {
                assert(label_of(ext@)[i - start] == '/');
                return Err(ExtensionError::HasSeparator);
            }
            chars.push(all[i]);
            i = i + 1;
            assert(chars@ =~= all@.subrange(start as int, i as int));
        }
        assert(chars@ =~= label_of(ext@));
        if chars.len() == 0 {
            return Err(ExtensionError::Empty);
        }
        Ok(ExtensionLabel { chars })
    }

    /// The label as text.
    pub fn as_string(&self) -> (r: String)
        ensures
            r@ == self@,
    {
        string_of(self.chars.as_slice())
    }

    /// The label's characters.
    pub fn as_chars(&self) -> (r: &[char])
        ensures
            r@ == self@,
    {
        self.chars.as_slice()
    }
}

/// Whether the file name `name` ends with `.` followed by `label`.
pub open spec fn has_extension(name: Seq<char>, label: Seq<char>) -> bool {
    (seq!['.'] + label).is_suffix_of(name)
}

/// One entry met while walking a directory tree.
pub struct Entry {
    /// Absolute path of the entry.
    pub path: String,
    /// Whether the entry is a regular file (not a directory or anything else).
    pub is_file: bool,
}

/// The paths of the regular files among `entries` whose name has the
/// extension `label`, in the order met.
pub open spec fn discovered(entries: Seq<Entry>, label: Seq<char>) -> Seq<Seq<char>>
    decreases entries.len(),
{
    if entries.len() == 0 {
        Seq::empty()
    } else {
        let rest = discovered(entries.drop_last(), label);
        let e = entries.last();
        if e.is_file && has_extension(base_name(e.path@), label) {
            rest.push(e.path@)
        } else {
            rest
        }
    }
}

/// The views of a sequence of strings.
pub open spec fn texts(v: Seq<String>) -> Seq<Seq<char>> {
    v.map_values(|s: String| s@)
}

/// Whether the file name `name` ends with `.` followed by `label`.
pub fn ends_with_extension(name: &[char], label: &[char]) -> (r: bool)
    ensures
        r == has_extension(name@, label@),
{
    let n = name.len();
    let l = label.len();
    if n <= l || name[n - l - 1] != '.' {
        proof {
            if has_extension(name@, label@) {
                let k = (n - l - 1) as int;
                assert(name@.subrange(k, n as int)[0] == name@[k]);
            }
        }
        return false;
    }
    let mut i: usize = 0;
    while i < l
        invariant
            l == label@.len(),
            n == name@.len(),
            n > l,
            i <= l,
            forall|j: int| 0 <= j < i ==> name@[n - l + j] == label@[j],
        decreases l - i,
    {
        if name[n - l + i] != label[i] {
            proof {
                if has_extension(name@, label@) {
                    let k = (n - l - 1) as int;
                    assert(name@.subrange(k, n as int)[i + 1] == name@[n - l + i]);
                }
            }
            return false;
        }
        i = i + 1;
    }
    assert(name@.subrange(n - l - 1, n as int) =~= seq!['.'] + label@);
    true
}

/// The paths of the regular files among `entries` whose name carries the
/// extension `label`, in the order met.
pub fn select_files(entries: &Vec<Entry>, label: &ExtensionLabel) -> (r: Vec<String>)
    ensures
        texts(r@) == discovered(entries@, label@),
{
    let mut r: Vec<String> = Vec::new();
    let mut i: usize = 0;
    while i < entries.len()
        invariant
            i <= entries@.len(),
            texts(r@) == discovered(entries@.take(i as int), label@),
        decreases entries@.len() - i,
    {
        let e = &entries[i];
        let path = chars_of(e.path.as_str());
        let name = base_name_of(path.as_slice());
        assert(entries@.take(i + 1).drop_last() =~= entries@.take(i as int));
        if e.is_file && ends_with_extension(name.as_slice(), label.as_chars()) {
            r.push(e.path.clone());
        }
        i = i + 1;
        assert(texts(r@) =~= discovered(entries@.take(i as int), label@));
    }
    assert(entries@.take(i as int) =~= entries@);
    r
}

/// Discovery returns exactly the regular files whose name carries the
/// extension, and nothing else: a path is among those selected if and only if
/// some entry with that path is a regular file with the extension.
pub proof fn lemma_discovered_exactly(entries: Seq<Entry>, label: Seq<char>, p: Seq<char>)
    ensures
        discovered(entries, label).contains(p) <==> exists|i: int|
            0 <= i < entries.len() && #[trigger] entries[i].path@ == p && entries[i].is_file
                && has_extension(base_name(p), label),
    decreases entries.len(),
{
    if entries.len() > 0 {
        let init = entries.drop_last();
        let last = (entries.len() - 1) as int;
        lemma_discovered_exactly(init, label, p);
        vstd::seq_lib::lemma_seq_contains_after_push(discovered(init, label), entries[last].path@, p);
        assert(entries.last() == entries[last]);
        if exists|i: int|
            0 <= i < init.len() && #[trigger] init[i].path@ == p && init[i].is_file
                && has_extension(base_name(p), label) {
            let i = choose|i: int|
                0 <= i < init.len() && #[trigger] init[i].path@ == p && init[i].is_file
                    && has_extension(base_name(p), label);
            assert(entries[i] == init[i]);
        }
        if exists|i: int|
            0 <= i < entries.len() && #[trigger] entries[i].path@ == p && entries[i].is_file
                && has_extension(base_name(p), label) {
            let i = choose|i: int|
                0 <= i < entries.len() && #[trigger] entries[i].path@ == p && entries[i].is_file
                    && has_extension(base_name(p), label);
            if i < init.len() {
                assert(init[i] == entries[i]);
            }
        }
    }
}

} // verus!
