//! One build stage and the text that it is rendered to.

use vstd::prelude::*;
use vstd::string::*;
use crate::dockerfile::add_file::{AddFile, AddFileView};
use crate::dockerfile::copy_file::{CopyFile, CopyFileView};
use crate::dockerfile::env::{env_text, Env};
use crate::dockerfile::packages::{packages_text, Packages};
use crate::dockerfile::run_commands::{run_commands_text, RunCommands};
use crate::tag::{Reference, ReferenceView};
use crate::text::{append_line, append_optional_line, concatenated, lemma_append_append,
    lemma_concatenated_next, line, optional_line, optional_text};

verus! {

/// The mathematical value of a [`Stage`].
pub struct StageView {
    pub from: ReferenceView,
    pub workdir: Option<Seq<char>>,
    pub user: Option<Seq<char>>,
    pub add: Seq<AddFileView>,
    pub copy: Seq<CopyFileView>,
    pub env: Seq<(Seq<char>, Seq<char>)>,
    pub install: Option<Seq<Seq<char>>>,
    pub run: Seq<Seq<char>>,
    pub entrypoint: Option<Seq<char>>,
    pub cmd: Option<Seq<char>>,
}

/// The declarations that add the files, in the order of the entries.
pub open spec fn add_files_text(entries: Seq<AddFileView>) -> Seq<char> {
    concatenated(entries.map_values(|entry: AddFileView| entry.text()))
}

/// The declarations that copy the files, in the order of the entries.
pub open spec fn copy_files_text(entries: Seq<CopyFileView>) -> Seq<char> {
    concatenated(entries.map_values(|entry: CopyFileView| entry.text()))
}

/// The directive that installs packages, where the stage asks for one.
pub open spec fn install_text(install: Option<Seq<Seq<char>>>) -> Seq<char> {
    match install {
        Some(packages) => packages_text(packages),
        None => Seq::empty(),
    }
}

impl StageView {
    /// The text of the stage: its sections in their fixed order, each only
    /// where the stage has it.
    pub open spec fn text(self) -> Seq<char> {
        line("FROM "@, self.from.text()) + optional_line("WORKDIR "@, self.workdir)
            + optional_line("USER "@, self.user) + add_files_text(self.add) + copy_files_text(
            self.copy,
        ) + env_text(self.env) + install_text(self.install) + run_commands_text(self.run)
            + optional_line("ENTRYPOINT "@, self.entrypoint) + optional_line("CMD "@, self.cmd)
    }

    /// What stands in the text before the declarations that add files.
    pub open spec fn head(self) -> Seq<char> {
        line("FROM "@, self.from.text()) + optional_line("WORKDIR "@, self.workdir)
            + optional_line("USER "@, self.user)
    }

    /// What stands in the text behind the declarations that add files.
    pub open spec fn tail(self) -> Seq<char> {
        copy_files_text(self.copy) + env_text(self.env) + install_text(self.install)
            + run_commands_text(self.run) + optional_line("ENTRYPOINT "@, self.entrypoint)
            + optional_line("CMD "@, self.cmd)
    }
}

/// One stage of a build.
#[derive(Debug, PartialEq, Eq)]
pub struct Stage {
    /// The image that the stage starts from.
    pub from: Reference,
    /// The working directory, if one is set.
    pub workdir: Option<String>,
    /// The user that commands run as, if one is set.
    pub user: Option<String>,
    /// Files added from the build context, in order.
    pub add: Vec<AddFile>,
    /// Files copied from the build context or an earlier stage, in order.
    pub copy: Vec<CopyFile>,
    /// Environment variables.
    pub env: Env,
    /// Packages to install, if the stage installs any.
    pub install: Option<Packages>,
    /// Commands to run.
    pub run: RunCommands,
    /// The entry point, if one is set.
    pub entrypoint: Option<String>,
    /// The default command, if one is set.
    pub cmd: Option<String>,
}

impl View for Stage {
    type V = StageView;

    open spec fn view(&self) -> StageView {
        StageView {
            from: self.from@,
            workdir: optional_text(self.workdir),
            user: optional_text(self.user),
            add: self.add@.map_values(|entry: AddFile| entry@),
            copy: self.copy@.map_values(|entry: CopyFile| entry@),
            env: self.env@,
            install: match self.install {
                Some(packages) => Some(packages@),
                None => None,
            },
            run: self.run@,
            entrypoint: optional_text(self.entrypoint),
            cmd: optional_text(self.cmd),
        }
    }
}

/// A copy of an optional string.
fn clone_optional(item: &Option<String>) -> (copy: Option<String>)
    ensures
        optional_text(copy) == optional_text(*item),
{
    match item {
        Some(s) => Some(s.clone()),
        None => None,
    }
}

/// Appends the declarations that add the files to `out`.
fn write_add_files(entries: &Vec<AddFile>, out: &mut String)
    ensures
        final(out)@ == old(out)@ + add_files_text(entries@.map_values(|entry: AddFile| entry@)),
{
    let ghost views = entries@.map_values(|entry: AddFile| entry@);
    let ghost parts = views.map_values(|entry: AddFileView| entry.text());
    let mut i: usize = 0;
    assert(out@ =~= old(out)@ + concatenated(parts.take(0)));
    while i < entries.len()
        invariant
            i <= entries.len(),
            parts.len() == entries.len(),
            forall|k: int| 0 <= k < parts.len() ==> #[trigger] parts[k] == entries@[k]@.text(),
            out@ == old(out)@ + concatenated(parts.take(i as int)),
        decreases entries.len() - i,
    {
        proof {
            lemma_concatenated_next(parts, i as int);
            lemma_append_append(old(out)@, concatenated(parts.take(i as int)), parts[i as int]);
        }
        entries[i].write_to(out);
        i += 1;
    }
    assert(parts.take(i as int) =~= parts);
}

/// Appends the declarations that copy the files to `out`.
fn write_copy_files(entries: &Vec<CopyFile>, out: &mut String)
    ensures
        final(out)@ == old(out)@ + copy_files_text(entries@.map_values(|entry: CopyFile| entry@)),
{
    let ghost views = entries@.map_values(|entry: CopyFile| entry@);
    let ghost parts = views.map_values(|entry: CopyFileView| entry.text());
    let mut i: usize = 0;
    assert(out@ =~= old(out)@ + concatenated(parts.take(0)));
    while i < entries.len()
        invariant
            i <= entries.len(),
            parts.len() == entries.len(),
            forall|k: int| 0 <= k < parts.len() ==> #[trigger] parts[k] == entries@[k]@.text(),
            out@ == old(out)@ + concatenated(parts.take(i as int)),
        decreases entries.len() - i,
    {
        proof {
            lemma_concatenated_next(parts, i as int);
            lemma_append_append(old(out)@, concatenated(parts.take(i as int)), parts[i as int]);
        }
        entries[i].write_to(out);
        i += 1;
    }
    assert(parts.take(i as int) =~= parts);
}

impl Clone for Stage {
    fn clone(&self) -> (copy: Self)
        ensures
            copy@ == self@,
    {
        let mut add: Vec<AddFile> = Vec::new();
        let mut i: usize = 0;
        while i < self.add.len()
            invariant
                i <= self.add.len(),
                add@.len() == i,
                forall|k: int| 0 <= k < i ==> (#[trigger] add@[k])@ == self.add@[k]@,
            decreases self.add.len() - i,
        {
            add.push(self.add[i].clone());
            i += 1;
        }
        let mut copy: Vec<CopyFile> = Vec::new();
        let mut j: usize = 0;
        while j < self.copy.len()
            invariant
                j <= self.copy.len(),
                copy@.len() == j,
                forall|k: int| 0 <= k < j ==> (#[trigger] copy@[k])@ == self.copy@[k]@,
            decreases self.copy.len() - j,
        {
            copy.push(self.copy[j].clone());
            j += 1;
        }
        let stage = Stage {
            from: self.from.clone(),
            workdir: clone_optional(&self.workdir),
            user: clone_optional(&self.user),
            add,
            copy,
            env: self.env.clone(),
            install: match &self.install {
                Some(packages) => Some(packages.clone()),
                None => None,
            },
            run: self.run.clone(),
            entrypoint: clone_optional(&self.entrypoint),
            cmd: clone_optional(&self.cmd),
        };
        assert(stage@.add =~= self@.add);
        assert(stage@.copy =~= self@.copy);
        stage
    }
}

impl Stage {
    /// A stage that starts from `from` and runs `run`, and has nothing else.
    pub fn new(from: Reference, run: RunCommands) -> (stage: Stage)
        ensures
            stage@ == (StageView {
                from: from@,
                workdir: None,
                user: None,
                add: Seq::empty(),
                copy: Seq::empty(),
                env: Seq::empty(),
                install: None,
                run: run@,
                entrypoint: None,
                cmd: None,
            }),
    {
        let stage = Stage {
            from,
            workdir: None,
            user: None,
            add: Vec::new(),
            copy: Vec::new(),
            env: Env::new(),
            install: None,
            run,
            entrypoint: None,
            cmd: None,
        };
        assert(stage@.add =~= Seq::<AddFileView>::empty());
        assert(stage@.copy =~= Seq::<CopyFileView>::empty());
        stage
    }

    /// The reference to the image that the stage starts from, as text.
    pub fn from(&self) -> (text: &str)
        ensures
            text@ == self@.from.text(),
    {
        self.from.as_str()
    }

    /// Appends the text of the stage to `out`.
    pub fn write_to(&self, out: &mut String)
        ensures
            final(out)@ == old(out)@ + self@.text(),
    {
        let ghost start = out@;
        let ghost view = self@;
        let ghost s1 = line("FROM "@, view.from.text());
        let ghost s2 = s1 + optional_line("WORKDIR "@, view.workdir);
        let ghost s3 = s2 + optional_line("USER "@, view.user);
        let ghost s4 = s3 + add_files_text(view.add);
        let ghost s5 = s4 + copy_files_text(view.copy);
        let ghost s6 = s5 + env_text(view.env);
        let ghost s7 = s6 + install_text(view.install);
        let ghost s8 = s7 + run_commands_text(view.run);
        let ghost s9 = s8 + optional_line("ENTRYPOINT "@, view.entrypoint);

        append_line(out, "FROM ", self.from.as_str());
        assert(out@ == start + s1);
        append_optional_line(out, "WORKDIR ", &self.workdir);
        proof {
            lemma_append_append(start, s1, optional_line("WORKDIR "@, view.workdir));
        }
        assert(out@ == start + s2);
        append_optional_line(out, "USER ", &self.user);
        proof {
            lemma_append_append(start, s2, optional_line("USER "@, view.user));
        }
        assert(out@ == start + s3);
        write_add_files(&self.add, out);
        proof {
            lemma_append_append(start, s3, add_files_text(view.add));
        }
        assert(out@ == start + s4);
        write_copy_files(&self.copy, out);
        proof {
            lemma_append_append(start, s4, copy_files_text(view.copy));
        }
        assert(out@ == start + s5);
        self.env.write_to(out);
        proof {
            lemma_append_append(start, s5, env_text(view.env));
        }
        assert(out@ == start + s6);
        match &self.install {
            Some(packages) => packages.write_to(out),
            None => {
                assert(out@ =~= start + s6 + Seq::<char>::empty());
            },
        }
        proof {
            lemma_append_append(start, s6, install_text(view.install));
        }
        assert(out@ == start + s7);
        self.run.write_to(out);
        proof {
            lemma_append_append(start, s7, run_commands_text(view.run));
        }
        assert(out@ == start + s8);
        append_optional_line(out, "ENTRYPOINT ", &self.entrypoint);
        proof {
            lemma_append_append(start, s8, optional_line("ENTRYPOINT "@, view.entrypoint));
        }
        assert(out@ == start + s9);
        append_optional_line(out, "CMD ", &self.cmd);
        proof {
            lemma_append_append(start, s9, optional_line("CMD "@, view.cmd));
        }
    }

    /// The text of the stage.
    pub fn to_string(&self) -> (text: String)
        ensures
            text@ == self@.text(),
    {
        let mut out = String::new();
        self.write_to(&mut out);
        assert(out@ =~= self@.text());
        out
    }
}

/// The text of a stage is what stands before the added files, their
/// declarations, and what stands behind them.
pub proof fn lemma_stage_text_parts(stage: StageView)
    ensures
        stage.text() == stage.head() + add_files_text(stage.add) + stage.tail(),
{
    assert(stage.text() =~= stage.head() + add_files_text(stage.add) + stage.tail());
}

/// `text` holds `first` and, somewhere behind the end of it, `second`.
pub open spec fn stands_before(text: Seq<char>, first: Seq<char>, second: Seq<char>) -> bool {
    exists|before: Seq<char>, between: Seq<char>, after: Seq<char>|
        text == before + first + between + second + after
}

/// Rendering keeps the order of the files to add: the declaration of an
/// earlier entry stands before the declaration of every later one.
pub proof fn lemma_add_order(stage: StageView, i: int, j: int)
    requires
        0 <= i < j < stage.add.len(),
    ensures
        stands_before(stage.text(), stage.add[i].text(), stage.add[j].text()),
{
    let parts = stage.add.map_values(|entry: AddFileView| entry.text());
    let (before, between, after) = crate::text::lemma_concatenated_order(parts, i, j);
    lemma_stage_text_parts(stage);
    let first = stage.add[i].text();
    let second = stage.add[j].text();
    assert(stage.text() =~= (stage.head() + before) + first + between + second + (after
        + stage.tail()));
}

/// Rendering keeps the order of the files to copy: the declaration of an
/// earlier entry stands before the declaration of every later one.
pub proof fn lemma_copy_order(stage: StageView, i: int, j: int)
    requires
        0 <= i < j < stage.copy.len(),
    ensures
        stands_before(stage.text(), stage.copy[i].text(), stage.copy[j].text()),
{
    let parts = stage.copy.map_values(|entry: CopyFileView| entry.text());
    let (before, between, after) = crate::text::lemma_concatenated_order(parts, i, j);
    let front = stage.head() + add_files_text(stage.add);
    let back = env_text(stage.env) + install_text(stage.install) + run_commands_text(stage.run)
        + optional_line("ENTRYPOINT "@, stage.entrypoint) + optional_line("CMD "@, stage.cmd);
    let first = stage.copy[i].text();
    let second = stage.copy[j].text();
    assert(stage.text() =~= front + copy_files_text(stage.copy) + back);
    assert(stage.text() =~= (front + before) + first + between + second + (after + back));
}

} // verus!
