//! The decisions of live reload: where a document is looked for at startup,
//! which file events concern a watched file, and what a reload does to the
//! object that holds the documents. Reading files and waiting for events is
//! left to the caller.
use crate::json::{parsed_json, utf8_lossy, Json, LoadError};
use crate::my_layout_data::{load_layout, SetMyLayoutData};
use crate::my_style_data::{is_styles_of, load_styles, MyStyleData, SetMyStyleData};
use crate::text::str_eq;
use vstd::prelude::*;

verus! {

/// What the holder of a document does after a reload was tried.
#[derive(Clone, Copy, Debug, PartialEq, Eq)]
pub enum ReloadAction {
    /// The document was replaced: render again.
    Rerender,
    /// The new text was rejected: the document in force stays, and the
    /// error is reported.
    Keep(LoadError),
}

/// The path under which a document is looked for: the path given where a
/// file is there, else the same path two directories up.
pub open spec fn document_path_of(path: Seq<char>, exists: bool) -> Seq<char> {
    if exists {
        path
    } else {
        "../../"@ + path
    }
}

/// Chooses the path to load a document from at startup, given whether a
/// file exists at `path`.
pub fn document_path(path: &str, exists: bool) -> (r: String)
    ensures
        r@ == document_path_of(path@, exists),
{
    if exists {
        path.to_owned()
    } else {
        let mut out = "../../".to_owned();
        out.append(path);
        out
    }
}

/// Whether one of the paths of a file event is the watched path. Paths are
/// compared in canonical form; `None` stands for a path that has none.
pub open spec fn event_concerns(watched: Option<String>, paths: Seq<Option<String>>) -> bool {
    exists|i: int| 0 <= i < paths.len() && same_path(watched, #[trigger] paths[i])
}

/// Whether two canonical paths are the same: both are missing, or both are
/// there with the same text.
pub open spec fn same_path(a: Option<String>, b: Option<String>) -> bool {
    match (a, b) {
        (Some(x), Some(y)) => x@ == y@,
        (None, None) => true,
        _ => false,
    }
}

/// Decides whether a file event concerns the watched file.
pub fn event_matches(watched: &Option<String>, paths: &Vec<Option<String>>) -> (r: bool)
    ensures
        r == event_concerns(*watched, paths@),
{
    let mut i: usize = 0;
    while i < paths.len()
        invariant
            0 <= i <= paths.len(),
            forall|k: int| 0 <= k < i ==> !same_path(*watched, #[trigger] paths@[k]),
        decreases paths.len() - i,
    {
        let same = match (watched, &paths[i]) {
            (Some(x), Some(y)) => str_eq(x.as_str(), y.as_str()),
            (None, None) => true,
            _ => false,
        };
        if same {
            return true;
        }
        i += 1;
    }
    false
}

/// The document in force after a run of reloads, each with its outcome: the
/// last one that loaded, or the initial document where none did.
pub open spec fn in_force<T>(initial: T, outcomes: Seq<Result<T, LoadError>>) -> T
    decreases outcomes.len(),
{
    if outcomes.len() == 0 {
        initial
    } else {
        match outcomes.last() {
            Ok(data) => data,
            Err(_) => in_force(initial, outcomes.drop_last()),
        }
    }
}

/// Reloads that fail change nothing: after a reload that loaded, any run of
/// failed reloads leaves that document in force; where every reload failed,
/// the initial document is still in force.
pub proof fn lemma_failed_reloads_keep_document<T>(
    initial: T,
    outcomes: Seq<Result<T, LoadError>>,
    good: int,
)
    requires
        -1 <= good < outcomes.len(),
        good >= 0 ==> outcomes[good] is Ok,
        forall|i: int| good < i < outcomes.len() ==> #[trigger] outcomes[i] is Err,
    ensures
        in_force(initial, outcomes) == if good >= 0 {
            outcomes[good]->Ok_0
        } else {
            initial
        },
    decreases outcomes.len(),
{
    if outcomes.len() > 0 && good < outcomes.len() - 1 {
        let shorter = outcomes.drop_last();
        assert(outcomes.last() is Err);
        assert forall|i: int| good < i < shorter.len() implies #[trigger] shorter[i] is Err by {
            assert(shorter[i] == outcomes[i]);
        }
        lemma_failed_reloads_keep_document(initial, shorter, good);
    }
}

/// Puts the outcome of loading a style document into force: new rules
/// replace the old ones as a whole; an error leaves the holder as it was.
pub fn apply_style_reload<T: SetMyStyleData>(
    owner: &mut T,
    outcome: Result<MyStyleData, LoadError>,
) -> (action: ReloadAction)
    ensures
        match outcome {
            Ok(data) => action == ReloadAction::Rerender && final(owner).style_data() == data,
            Err(e) => action == ReloadAction::Keep(e) && *final(owner) == *old(owner),
        },
        final(owner).style_data() == in_force(old(owner).style_data(), seq![outcome]),
{
    proof {
        let run = seq![outcome];
        assert(run.last() == outcome);
        assert(run.drop_last().len() == 0);
        assert(in_force(old(owner).style_data(), run.drop_last()) == old(owner).style_data());
    }
    match outcome {
        Ok(data) => {
            owner.set_style_data(data);
            ReloadAction::Rerender
        },
        Err(e) => ReloadAction::Keep(e),
    }
}

/// Puts the outcome of loading a layout document into force.
pub fn apply_layout_reload<T: SetMyLayoutData>(
    owner: &mut T,
    outcome: Result<Json, LoadError>,
) -> (action: ReloadAction)
    ensures
        match outcome {
            Ok(data) => action == ReloadAction::Rerender && final(owner).layout_data() == data,
            Err(e) => action == ReloadAction::Keep(e) && *final(owner) == *old(owner),
        },
        final(owner).layout_data() == in_force(old(owner).layout_data(), seq![outcome]),
{
    proof {
        let run = seq![outcome];
        assert(run.last() == outcome);
        assert(run.drop_last().len() == 0);
        assert(in_force(old(owner).layout_data(), run.drop_last()) == old(owner).layout_data());
    }
    match outcome {
        Ok(data) => {
            owner.set_layout_data(data);
            ReloadAction::Rerender
        },
        Err(e) => ReloadAction::Keep(e),
    }
}

/// Reloads the style rules from the bytes of a changed file. Text that is
/// no style document leaves the rules in force untouched.
pub fn reload_styles<T: SetMyStyleData>(owner: &mut T, content: &[u8]) -> (action: ReloadAction)
    ensures
        match parsed_json(utf8_lossy(content@)) {
            Some(doc) => match action {
                ReloadAction::Rerender => is_styles_of(
                    doc,
                    Ok::<MyStyleData, LoadError>(final(owner).style_data()),
                ),
                ReloadAction::Keep(e) => is_styles_of(doc, Err::<MyStyleData, LoadError>(e))
                    && *final(owner) == *old(owner),
            },
            None => action == ReloadAction::Keep(LoadError::Syntax) && *final(owner) == *old(
                owner,
            ),
        },
{
    let outcome = load_styles(content);
    apply_style_reload(owner, outcome)
}

/// Reloads the layout document from the bytes of a changed file. Text that
/// is not JSON leaves the document in force untouched.
pub fn reload_layout<T: SetMyLayoutData>(owner: &mut T, content: &[u8]) -> (action: ReloadAction)
    ensures
        match parsed_json(utf8_lossy(content@)) {
            Some(doc) => action == ReloadAction::Rerender && final(owner).layout_data() == doc,
            None => action == ReloadAction::Keep(LoadError::Syntax) && *final(owner) == *old(
                owner,
            ),
        },
{
    let outcome = load_layout(content);
    apply_layout_reload(owner, outcome)
}

} // verus!
