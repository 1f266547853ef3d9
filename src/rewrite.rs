//! The decisions taken for each tracked reference during the rewriting
//! pass. The pass itself, and the file operations that the decisions call
//! for, are carried out by the caller, which reports each outcome back.

use vstd::prelude::*;
use crate::naming::{
    already_fingerprinted, file_name, fingerprinted, fingerprinted_name, get_file_path,
    is_fingerprinted, join, join_exec, resolve,
};
use crate::xxhash::{xx_hash32, xxh32};

verus! {

/// The two element patterns whose references are fingerprinted:
/// `script[src]` and `link[rel=stylesheet][href]`.
pub enum AssetKind {
    Script,
    Stylesheet,
}

/// The attribute that holds the reference of an element of kind `k`.
pub open spec fn attribute_of(k: AssetKind) -> Seq<char> {
    match k {
        AssetKind::Script => seq!['s', 'r', 'c'],
        AssetKind::Stylesheet => seq!['h', 'r', 'e', 'f'],
    }
}

impl AssetKind {
    /// The name of the attribute that holds the reference.
    pub fn attribute(&self) -> (r: &'static str)
        ensures
            r@ == attribute_of(*self),
    {
        match self {
            AssetKind::Script => {
                proof {
                    reveal_strlit("src");
                }
                "src"
            },
            AssetKind::Stylesheet => {
                proof {
                    reveal_strlit("href");
                }
                "href"
            },
        }
    }
}

/// The settings of one run.
pub struct RunConfig {
    /// The directory that root-relative references and new files live in.
    pub base: String,
    /// Whether the original asset files are kept after fingerprinting.
    pub keep: bool,
}

/// What aborts a run.
pub enum RunError {
    /// The original asset at `removed` could not be removed.
    RemoveFailed { removed: String },
}

/// How far the handling of one reference has come.
pub enum Stage {
    /// Waiting for the content of the asset.
    Reading,
    /// Waiting for the fingerprinted copy, to be named `name`, to be written.
    Writing { name: String },
    /// Waiting for the original asset to be removed.
    Removing,
    /// Nothing more is to be done.
    Finished,
}

/// What the caller reports back after carrying out an action.
pub enum Event {
    /// The whole content of the asset, or none where it could not be read.
    Read(Option<Vec<u8>>),
    /// Whether the fingerprinted copy was written.
    Written(bool),
    /// Whether the original asset was removed.
    Removed(bool),
}

/// What the caller is to do next for one reference.
pub enum Action {
    /// Read the whole file at `source`, then report `Event::Read`.
    Read { source: String },
    /// Write `content` to the file `target`, replacing any file there, then
    /// report `Event::Written`.
    Write { target: String, content: Vec<u8> },
    /// Set the tracked attribute to `value`; then, where `remove` holds a
    /// path, remove that file and report `Event::Removed`.
    Rewrite { value: String, remove: Option<String> },
    /// Leave the element as it is; the reference is done.
    Leave,
    /// The reference is done.
    Done,
    /// Abort the whole run.
    Abort(RunError),
}

/// The handling of one tracked reference.
pub struct AssetJob {
    /// The path that the reference resolves to.
    pub path: String,
    /// The base directory of the run.
    pub base: String,
    /// Whether the original asset is kept.
    pub keep: bool,
    /// How far the handling has come.
    pub stage: Stage,
}

/// Whether `e` is the report that `s` waits for.
pub open spec fn awaits(s: Stage, e: Event) -> bool {
    match s {
        Stage::Reading => e is Read,
        Stage::Writing { .. } => e is Written,
        Stage::Removing => e is Removed,
        Stage::Finished => false,
    }
}

impl AssetJob {
    /// Begins the handling of the reference `reference` found in the
    /// document: the asset is read from the path that it resolves to.
    pub fn start(reference: &str, config: &RunConfig) -> (r: (AssetJob, Action))
        ensures
            r.0.path@ == resolve(reference@, config.base@),
            r.0.base@ == config.base@,
            r.0.keep == config.keep,
            r.0.stage is Reading,
            r.1 is Read,
            r.1->source@ == r.0.path@,
    {
        let path = get_file_path(reference, config.base.as_str());
        let source = path.clone();
        let base = config.base.clone();
        (AssetJob { path, base, keep: config.keep, stage: Stage::Reading }, Action::Read { source })
    }

    /// Whether `event` is the report that this job waits for.
    pub fn accepts(&self, event: &Event) -> (r: bool)
        ensures
            r == awaits(self.stage, *event),
    {
        match (&self.stage, event) {
            (Stage::Reading, Event::Read(_)) => true,
            (Stage::Writing { .. }, Event::Written(_)) => true,
            (Stage::Removing, Event::Removed(_)) => true,
            _ => false,
        }
    }

    /// Takes the report of the last action and decides the next one.
    ///
    /// A readable asset is copied under its fingerprinted name in the base
    /// directory, and the reference is rewritten to that name; the original
    /// is then removed unless the run keeps originals. An asset that cannot
    /// be read or copied, whose file name lacks a stem or an extension, or
    /// whose file name already carries the digest of its content, leaves the
    /// element as it is. A failed removal aborts the run.
    pub fn step(self, event: Event) -> (r: (AssetJob, Action))
        requires
            awaits(self.stage, event),
        ensures
            r.0.path == self.path,
            r.0.base == self.base,
            r.0.keep == self.keep,
            ({
                let d = xxh32(event->Read_0->0@);
                let n = fingerprinted(self.path@, d);
                self.stage is Reading && event->Read_0 is Some ==> if already_fingerprinted(
                    file_name(self.path@),
                    d,
                ) || n is None {
                    r.0.stage is Finished && r.1 is Leave
                } else {
                    &&& r.0.stage is Writing
                    &&& r.0.stage->name@ == n->0
                    &&& r.1 is Write
                    &&& r.1->target@ == join(self.base@, n->0)
                    &&& r.1->content@ == event->Read_0->0@
                }
            }),
            self.stage is Reading && event->Read_0 is None ==> r.0.stage is Finished && r.1 is Leave,
            self.stage is Writing && event->Written_0 ==> {
                &&& r.1 is Rewrite
                &&& r.1->value@ == self.stage->name@
                &&& if self.keep {
                    r.0.stage is Finished && r.1->remove is None
                } else {
                    &&& r.0.stage is Removing
                    &&& r.1->remove is Some
                    &&& r.1->remove->0@ == self.path@
                }
            },
            self.stage is Writing && !event->Written_0 ==> r.0.stage is Finished && r.1 is Leave,
            self.stage is Removing && event->Removed_0 ==> r.0.stage is Finished && r.1 is Done,
            self.stage is Removing && !event->Removed_0 ==> {
                &&& r.0.stage is Finished
                &&& r.1 is Abort
                &&& r.1->Abort_0 is RemoveFailed
                &&& r.1->Abort_0->removed@ == self.path@
            },
    {
        let AssetJob { path, base, keep, stage } = self;
        match (stage, event) {
            (Stage::Reading, Event::Read(Some(content))) => {
                let digest = xx_hash32(content.as_slice());
                if is_fingerprinted(path.as_str(), digest) {
                    return (AssetJob { path, base, keep, stage: Stage::Finished }, Action::Leave);
                }
                match fingerprinted_name(path.as_str(), digest) {
                    Some(name) => {
                        let target = join_exec(base.as_str(), name.as_str());
                        (
                            AssetJob { path, base, keep, stage: Stage::Writing { name } },
                            Action::Write { target, content },
                        )
                    },
                    None => (AssetJob { path, base, keep, stage: Stage::Finished }, Action::Leave),
                }
            },
            (Stage::Writing { name }, Event::Written(true)) => {
                if keep {
                    (
                        AssetJob { path, base, keep, stage: Stage::Finished },
                        Action::Rewrite { value: name, remove: None },
                    )
                } else {
                    let original = path.clone();
                    (
                        AssetJob { path, base, keep, stage: Stage::Removing },
                        Action::Rewrite { value: name, remove: Some(original) },
                    )
                }
            },
            (Stage::Removing, Event::Removed(false)) => {
                let removed = path.clone();
                (
                    AssetJob { path, base, keep, stage: Stage::Finished },
                    Action::Abort(RunError::RemoveFailed { removed }),
                )
            },
            (Stage::Removing, Event::Removed(true)) => {
                (AssetJob { path, base, keep, stage: Stage::Finished }, Action::Done)
            },
            (_, _) => { (AssetJob { path, base, keep, stage: Stage::Finished }, Action::Leave) },
        }
    }
}

} // verus!
