//! Laying discovered files out into the output area, one file at a time.
//!
//! A run owns one target directory, `<output root>/searches/<ext>` in flat
//! layout or `<output root>/reconstructions/<ext>` in reconstructed layout,
//! which the caller clears before the first file. The run then decides where
//! each file goes, and the caller reports back whether the copy succeeded. As
//! the directory started empty, the files in it are exactly those that the run
//! has copied, which is what flat layout checks for name collisions.

use vstd::prelude::*;
use crate::discovery::{has_extension, ExtensionLabel};
use crate::paths::{
    base_name, base_name_of, first_dot, join, lemma_first_dot_bounds, join_chars, parent_dir, parent_dir_of, relative_to,
    relative_to_chars, same_chars, slice_chars, with_token, with_token_chars,
};
use crate::text::{chars_of, string_of};

verus! {

/// How copies are laid out under the output root.
#[derive(Debug, Clone, Copy, PartialEq, Eq, Structural)]
pub enum LayoutMode {
    /// Every file directly in one directory; clashing names get a random token.
    Flat,
    /// Every file under its source directory, taken relative to the working directory.
    Reconstructed,
}

/// Why no destination can be given to a discovered path.
#[derive(Debug, Clone, Copy, PartialEq, Eq, Structural)]
pub enum SourceError {
    /// The path has no last component.
    NoFileName,
    /// The name clashes in flat layout and has no `.` to put the token before.
    NoDotForToken,
    /// In reconstructed layout, the file does not lie under the working directory.
    OutsideWorkingDir,
}

/// Length of the token that tells clashing names apart in flat layout.
pub const TOKEN_LEN: usize = 5;

/// The characters that a token is made of.
pub open spec fn token_char(c: char) -> bool {
    c == '_' || c == '-' || ('0' <= c && c <= '9') || ('a' <= c && c <= 'z') || ('A' <= c
        && c <= 'Z')
}

/// A token that tells clashing names apart.
pub open spec fn is_token(t: Seq<char>) -> bool {
    t.len() == TOKEN_LEN && forall|i: int| 0 <= i < t.len() ==> token_char(t[i])
}

/// Relies on `nanoid::format` with nanoid's default random source and its
/// `SAFE` alphabet (`_`, `-`, digits, ASCII letters): it returns `TOKEN_LEN`
/// characters, each drawn from that alphabet.
#[verifier::external_body]
fn random_token() -> (r: String)
    ensures
        is_token(r@),
{
    nanoid::format(nanoid::rngs::default, &nanoid::alphabet::SAFE, TOKEN_LEN)
}

/// The directory under the output root that holds the given layout.
pub open spec fn mode_dir(mode: LayoutMode) -> Seq<char> {
    match mode {
        LayoutMode::Flat => "searches"@,
        LayoutMode::Reconstructed => "reconstructions"@,
    }
}

/// The directory that a run for `label` in layout `mode` fills.
pub open spec fn target_dir(root: Seq<char>, label: Seq<char>, mode: LayoutMode) -> Seq<char> {
    join(join(root, mode_dir(mode)), label)
}

/// What a run knows: where it writes, how, and what it has done so far.
pub struct RunState {
    pub target: Seq<char>,
    pub mode: LayoutMode,
    pub working_dir: Seq<char>,
    /// The destinations copied to so far, in order.
    pub written: Seq<Seq<char>>,
    /// Files handled so far.
    pub attempted: nat,
    /// Files among them that were not copied.
    pub failures: nat,
}

/// The state of a run that has not handled any file yet.
pub open spec fn fresh(target: Seq<char>, mode: LayoutMode, working_dir: Seq<char>) -> RunState {
    RunState { target, mode, working_dir, written: Seq::empty(), attempted: 0, failures: 0 }
}

/// Where the discovered file `file` goes: the directory to create and the
/// destination path. `token` is used only when the name clashes in flat layout.
pub open spec fn plan(s: RunState, file: Seq<char>, token: Seq<char>) -> Result<
    (Seq<char>, Seq<char>),
    SourceError,
> {
    let name = base_name(file);
    if name.len() == 0 {
        Err(SourceError::NoFileName)
    } else if s.mode == LayoutMode::Flat {
        let first = join(s.target, name);
        if !s.written.contains(first) {
            Ok((s.target, first))
        } else {
            match with_token(name, token) {
                Some(renamed) => Ok((s.target, join(s.target, renamed))),
                None => Err(SourceError::NoDotForToken),
            }
        }
    } else {
        match relative_to(parent_dir(file), s.working_dir) {
            Some(rel) => {
                let dir = if rel.len() == 0 {
                    s.target
                } else {
                    join(s.target, rel)
                };
                Ok((dir, join(dir, name)))
            },
            None => Err(SourceError::OutsideWorkingDir),
        }
    }
}

/// Whether placing `file` needs a token: its plain name is taken in flat layout.
pub open spec fn needs_token(s: RunState, file: Seq<char>) -> bool {
    s.mode == LayoutMode::Flat && base_name(file).len() > 0 && s.written.contains(
        join(s.target, base_name(file)),
    )
}

/// The state after a copy to `path` that succeeded (`copied`) or failed.
pub open spec fn recorded(s: RunState, path: Seq<char>, copied: bool) -> RunState {
    RunState {
        written: if copied {
            s.written.push(path)
        } else {
            s.written
        },
        attempted: s.attempted + 1,
        failures: if copied {
            s.failures
        } else {
            s.failures + 1
        },
        ..s
    }
}

/// The state after a file that could not be given a destination.
pub open spec fn unresolved(s: RunState) -> RunState {
    RunState { attempted: s.attempted + 1, failures: s.failures + 1, ..s }
}

/// Where to copy one file.
pub struct Destination {
    /// The directory that must exist before the copy.
    pub dir: String,
    /// The path to copy to.
    pub path: String,
}

/// Whether `r` is what `p` plans.
pub open spec fn is_planned(r: Result<Destination, SourceError>, p: Result<(Seq<char>, Seq<char>), SourceError>) -> bool {
    match r {
        Ok(d) => p is Ok && d.dir@ == p->Ok_0.0 && d.path@ == p->Ok_0.1,
        Err(e) => p == Err::<(Seq<char>, Seq<char>), SourceError>(e),
    }
}

/// How many files a run copied, out of how many it handled.
#[derive(Debug, Clone, Copy, PartialEq, Eq, Structural)]
pub struct CopyOutcome {
    pub copied: usize,
    pub total: usize,
}

/// One run of laying files out into a target directory.
pub struct Materializer {
    target: Vec<char>,
    mode: LayoutMode,
    working_dir: Vec<char>,
    written: Vec<Vec<char>>,
    attempted: usize,
    failures: usize,
}

impl View for Materializer {
    type V = RunState;

    closed spec fn view(&self) -> RunState {
        RunState {
            target: self.target@,
            mode: self.mode,
            working_dir: self.working_dir@,
            written: self.written@.map_values(|v: Vec<char>| v@),
            attempted: self.attempted as nat,
            failures: self.failures as nat,
        }
    }
}

impl Materializer {
    /// The counts agree with what was written.
    pub closed spec fn wf(&self) -> bool {
        self.failures <= self.attempted && self.written@.len() + self.failures == self.attempted
    }

    /// A run for the files of extension `label`, laid out in `mode` under
    /// `output_root`; reconstructed layout takes source directories relative to
    /// `working_dir`.
    pub fn new(output_root: &str, label: &ExtensionLabel, mode: LayoutMode, working_dir: &str) -> (r:
        Materializer)
        ensures
            r.wf(),
            r@ == fresh(target_dir(output_root@, label@, mode), mode, working_dir@),
    {
        let root = chars_of(output_root);
        let sub = match mode {
            LayoutMode::Flat => chars_of("searches"),
            LayoutMode::Reconstructed => chars_of("reconstructions"),
        };
        let under = join_chars(root.as_slice(), sub.as_slice());
        let target = join_chars(under.as_slice(), label.as_chars());
        let r = Materializer {
            target,
            mode,
            working_dir: chars_of(working_dir),
            written: Vec::new(),
            attempted: 0,
            failures: 0,
        };
        assert(r@.written =~= Seq::<Seq<char>>::empty());
        r
    }

    /// The directory this run fills; the caller clears it before the first file.
    pub fn target_dir(&self) -> (r: String)
        ensures
            r@ == self@.target,
    {
        string_of(self.target.as_slice())
    }

    /// Whether this run has copied to `p`.
    fn has_written(&self, p: &[char]) -> (r: bool)
        ensures
            r == self@.written.contains(p@),
    {
        let mut i: usize = 0;
        while i < self.written.len()
            invariant
                i <= self.written@.len(),
                forall|j: int| 0 <= j < i ==> self.written@[j]@ != p@,
            decreases self.written@.len() - i,
        {
            if same_chars(self.written[i].as_slice(), p) {
                assert(self@.written[i as int] == p@);
                return true;
            }
            i = i + 1;
        }
        proof {
            if self@.written.contains(p@) {
                let j = choose|j: int| 0 <= j < self@.written.len() && self@.written[j] == p@;
                assert(self.written@[j]@ == p@);
            }
        }
        false
    }

    /// Where `file` goes, with `token` to tell its name apart should it clash.
    pub fn destination_with_token(&self, file: &str, token: &str) -> (r: Result<Destination, SourceError>)
        ensures
            is_planned(r, plan(self@, file@, token@)),
    {
        let path = chars_of(file);
        let name = base_name_of(path.as_slice());
        if name.len() == 0 {
            return Err(SourceError::NoFileName);
        }
        match self.mode {
            LayoutMode::Flat => {
                let first = join_chars(self.target.as_slice(), name.as_slice());
                if !self.has_written(first.as_slice()) {
                    return Ok(
                        Destination {
                            dir: string_of(self.target.as_slice()),
                            path: string_of(first.as_slice()),
                        },
                    );
                }
                let tok = chars_of(token);
                match with_token_chars(name.as_slice(), tok.as_slice()) {
                    Some(renamed) => {
                        let dest = join_chars(self.target.as_slice(), renamed.as_slice());
                        Ok(
                            Destination {
                                dir: string_of(self.target.as_slice()),
                                path: string_of(dest.as_slice()),
                            },
                        )
                    },
                    None => Err(SourceError::NoDotForToken),
                }
            },
            LayoutMode::Reconstructed => {
                let parent = parent_dir_of(path.as_slice());
                match relative_to_chars(parent.as_slice(), self.working_dir.as_slice()) {
                    Some(rel) => {
                        let dir = if rel.len() == 0 {
                            slice_chars(self.target.as_slice(), 0, self.target.len())
                        } else {
                            join_chars(self.target.as_slice(), rel.as_slice())
                        };
                        assert(rel.len() == 0 ==> dir@ =~= self@.target);
                        let dest = join_chars(dir.as_slice(), name.as_slice());
                        Ok(Destination { dir: string_of(dir.as_slice()), path: string_of(dest.as_slice()) })
                    },
                    None => Err(SourceError::OutsideWorkingDir),
                }
            },
        }
    }

    /// Where `file` goes; should its name clash in flat layout, a fresh random
    /// token tells it apart.
    pub fn destination(&self, file: &str) -> (r: Result<Destination, SourceError>)
        ensures
            exists|t: Seq<char>| is_token(t) && is_planned(r, plan(self@, file@, t)),
            !needs_token(self@, file@) ==> is_planned(r, plan(self@, file@, Seq::empty())),
    {
        if self.clashes(file) {
            let token = random_token();
            let r = self.destination_with_token(file, token.as_str());
            assert(is_token(token@) && is_planned(r, plan(self@, file@, token@)));
            r
        } else {
            let r = self.destination_with_token(file, "");
            let ghost t = Seq::new(TOKEN_LEN as nat, |i: int| 'a');
            assert(is_token(t) && is_planned(r, plan(self@, file@, t)));
            r
        }
    }

    /// Whether `file` needs a token: its plain name is taken in flat layout.
    fn clashes(&self, file: &str) -> (r: bool)
        ensures
            r == needs_token(self@, file@),
    {
        if self.mode != LayoutMode::Flat {
            return false;
        }
        let path = chars_of(file);
        let name = base_name_of(path.as_slice());
        if name.len() == 0 {
            return false;
        }
        let first = join_chars(self.target.as_slice(), name.as_slice());
        self.has_written(first.as_slice())
    }

    /// Records that the copy to `path` succeeded (`copied`) or failed.
    pub fn record_copy(&mut self, path: &str, copied: bool)
        requires
            old(self).wf(),
            old(self)@.attempted < usize::MAX,
        ensures
            final(self).wf(),
            final(self)@ == recorded(old(self)@, path@, copied),
    {
        self.attempted = self.attempted + 1;
        if copied {
            self.written.push(chars_of(path));
        } else {
            self.failures = self.failures + 1;
        }
        assert(self@.written =~= recorded(old(self)@, path@, copied).written);
    }

    /// Records a file that could not be given a destination.
    pub fn record_unresolved(&mut self)
        requires
            old(self).wf(),
            old(self)@.attempted < usize::MAX,
        ensures
            final(self).wf(),
            final(self)@ == unresolved(old(self)@),
    {
        self.attempted = self.attempted + 1;
        self.failures = self.failures + 1;
    }

    /// How many files were handled so far.
    pub fn attempted(&self) -> (r: usize)
        ensures
            r == self@.attempted,
    {
        self.attempted
    }

    /// How many files were copied, out of how many handled.
    pub fn outcome(&self) -> (r: CopyOutcome)
        requires
            self.wf(),
        ensures
            r.total == self@.attempted,
            r.copied == self@.attempted - self@.failures,
    {
        CopyOutcome { copied: self.attempted - self.failures, total: self.attempted }
    }
}

/// The state after handling `file`: placed as planned and copied or not, or
/// left without a destination.
pub open spec fn step(s: RunState, file: Seq<char>, token: Seq<char>, copied: bool) -> RunState {
    match plan(s, file, token) {
        Ok(d) => recorded(s, d.1, copied),
        Err(_) => unresolved(s),
    }
}

/// The state after handling `files` in order, with the matching tokens and
/// copy results.
pub open spec fn run(s: RunState, files: Seq<Seq<char>>, tokens: Seq<Seq<char>>, copied: Seq<bool>) -> RunState
    decreases files.len(),
{
    if files.len() == 0 {
        s
    } else {
        run(
            step(s, files[0], tokens[0], copied[0]),
            files.drop_first(),
            tokens.drop_first(),
            copied.drop_first(),
        )
    }
}

/// In flat layout, of two files with the same name, the first handled keeps
/// the plain name and the second gets another one, so that both copies stay
/// side by side in the target directory.
pub proof fn lemma_flat_same_name(
    s: RunState,
    a: Seq<char>,
    b: Seq<char>,
    label: Seq<char>,
    token_a: Seq<char>,
    token_b: Seq<char>,
)
    requires
        s == fresh(s.target, LayoutMode::Flat, s.working_dir),
        base_name(a) == base_name(b),
        has_extension(base_name(a), label),
    ensures
        ({
            let plain = join(s.target, base_name(a));
            let pa = plan(s, a, token_a);
            let s1 = recorded(s, pa->Ok_0.1, true);
            let pb = plan(s1, b, token_b);
            let s2 = recorded(s1, pb->Ok_0.1, true);
            &&& pa is Ok
            &&& pa->Ok_0.1 == plain
            &&& pb is Ok
            &&& pb->Ok_0.1 != plain
            &&& s2.written.contains(plain)
            &&& s2.written.contains(pb->Ok_0.1)
        }),
{
    let name = base_name(a);
    let plain = join(s.target, name);
    let n = name.len() as int;
    let k = n - label.len() - 1;
    assert(name.subrange(k, n)[0] == name[k]);
    lemma_first_dot_bounds(name);
    assert(first_dot(name) is Some);
    let s1 = recorded(s, plain, true);
    assert(s1.written[0] == plain);
    let renamed = with_token(name, token_b)->0;
    assert(renamed.len() > name.len());
    assert(join(s.target, renamed).len() != plain.len());
    let s2 = recorded(s1, join(s.target, renamed), true);
    assert(s2.written[0] == plain);
    assert(s2.written[1] == join(s.target, renamed));
}

/// In reconstructed layout, a file under the working directory goes to the
/// target directory, below its own directory taken relative to the working
/// directory, under its own name.
pub proof fn lemma_reconstructed_place(s: RunState, file: Seq<char>, token: Seq<char>)
    requires
        s.mode == LayoutMode::Reconstructed,
        base_name(file).len() > 0,
        relative_to(parent_dir(file), s.working_dir) is Some,
    ensures
        ({
            let rel = relative_to(parent_dir(file), s.working_dir)->0;
            let p = plan(s, file, token);
            &&& p is Ok
            &&& rel.len() == 0 ==> p->Ok_0.1 == join(s.target, base_name(file))
            &&& rel.len() > 0 ==> p->Ok_0.1 == join(join(s.target, rel), base_name(file))
        }),
{
}

proof fn lemma_run_tokens_unused(
    s: RunState,
    files: Seq<Seq<char>>,
    tokens_1: Seq<Seq<char>>,
    tokens_2: Seq<Seq<char>>,
    copied: Seq<bool>,
)
    requires
        s.mode == LayoutMode::Reconstructed,
    ensures
        run(s, files, tokens_1, copied) == run(s, files, tokens_2, copied),
    decreases files.len(),
{
    if files.len() > 0 {
        assert(step(s, files[0], tokens_1[0], copied[0]) == step(s, files[0], tokens_2[0], copied[0]));
        lemma_run_tokens_unused(
            step(s, files[0], tokens_1[0], copied[0]),
            files.drop_first(),
            tokens_1.drop_first(),
            tokens_2.drop_first(),
            copied.drop_first(),
        );
    }
}

proof fn lemma_run_counts(s: RunState, files: Seq<Seq<char>>, tokens: Seq<Seq<char>>, copied: Seq<bool>)
    ensures
        run(s, files, tokens, copied).attempted == s.attempted + files.len(),
        run(s, files, tokens, copied).written.len() <= s.written.len() + files.len(),
    decreases files.len(),
{
    if files.len() > 0 {
        lemma_run_counts(
            step(s, files[0], tokens[0], copied[0]),
            files.drop_first(),
            tokens.drop_first(),
            copied.drop_first(),
        );
    }
}

/// Each run starts from an emptied target directory, so nothing of an earlier
/// run stays: a run handles exactly its own files and writes at most one copy
/// per file. Two runs over the same files with the same copy results end with
/// the same copies: whatever tokens were drawn in reconstructed layout, and
/// given the same tokens in flat layout.
pub proof fn lemma_rerun_same(
    target: Seq<char>,
    mode: LayoutMode,
    working_dir: Seq<char>,
    files: Seq<Seq<char>>,
    tokens_1: Seq<Seq<char>>,
    tokens_2: Seq<Seq<char>>,
    copied: Seq<bool>,
)
    requires
        mode == LayoutMode::Reconstructed || tokens_1 == tokens_2,
    ensures
        run(fresh(target, mode, working_dir), files, tokens_1, copied) == run(
            fresh(target, mode, working_dir),
            files,
            tokens_2,
            copied,
        ),
        run(fresh(target, mode, working_dir), files, tokens_1, copied).attempted == files.len(),
        run(fresh(target, mode, working_dir), files, tokens_1, copied).written.len() <= files.len(),
{
    if mode == LayoutMode::Reconstructed {
        lemma_run_tokens_unused(fresh(target, mode, working_dir), files, tokens_1, tokens_2, copied);
    }
    lemma_run_counts(fresh(target, mode, working_dir), files, tokens_1, copied);
}

} // verus!
