//! The command engine: the spec-level meaning of each command over the
//! store's map value, the executable handlers that implement it, the
//! dispatcher that routes one raw line, and the laws that relate commands
//! to one another.

use crate::store::{Bug, BugV, Store};
use crate::tokens::{lemma_split_len, split_on_char, split_spec, str_eq, trim_spec, trimmed};
use vstd::prelude::*;

verus! {

/// The mathematical value of a command failure.
pub ghost enum ErrV {
    WrongCount,
    WrongAttrs,
    UnknownCommand,
    MissingId,
    DuplicateId(BugV),
}

/// The numeric code under which the error reporter prints each failure.
pub open spec fn code_of(e: ErrV) -> int {
    match e {
        ErrV::WrongCount => 1,
        ErrV::WrongAttrs => 2,
        ErrV::UnknownCommand => 3,
        ErrV::MissingId => 4,
        ErrV::DuplicateId(_) => 5,
    }
}

/// The mathematical value of what one dispatched line produces.
pub ghost enum ReplyV {
    Exit,
    Help,
    Created,
    Shown(BugV),
    Updated,
    Deleted,
    Failed(ErrV),
}

/// One step of the session: the store after a command, and the reply.
pub ghost struct Step {
    pub store: Map<Seq<char>, BugV>,
    pub reply: ReplyV,
}

/// The meaning of `create` on quoted view `q` and whitespace view `w`:
/// exactly 7 quoted tokens, the flags `--id`, `--species`,
/// `--description` in that fixed order, and a fresh identifier; a strict
/// insert-if-absent, never an overwrite. A duplicate identifier fails and
/// carries the existing record, which is displayed.
pub open spec fn create_spec(m: Map<Seq<char>, BugV>, q: Seq<Seq<char>>, w: Seq<Seq<char>>) -> Step
    recommends
        w.len() >= 2,
{
    if q.len() != 7 {
        Step { store: m, reply: ReplyV::Failed(ErrV::WrongCount) }
    } else if !(w[1] == "--id"@ && trim_spec(q[2]) == "--species"@ && trim_spec(q[4])
        == "--description"@) {
        Step { store: m, reply: ReplyV::Failed(ErrV::WrongAttrs) }
    } else if m.dom().contains(q[1]) {
        Step { store: m, reply: ReplyV::Failed(ErrV::DuplicateId(m[q[1]])) }
    } else {
        Step {
            store: m.insert(q[1], BugV { species: q[3], description: q[5] }),
            reply: ReplyV::Created,
        }
    }
}

/// The meaning of `show`: exactly 3 quoted tokens and a present
/// identifier; the store is never changed.
pub open spec fn show_spec(m: Map<Seq<char>, BugV>, q: Seq<Seq<char>>) -> Step {
    if q.len() != 3 {
        Step { store: m, reply: ReplyV::Failed(ErrV::WrongCount) }
    } else if !m.dom().contains(q[1]) {
        Step { store: m, reply: ReplyV::Failed(ErrV::MissingId) }
    } else {
        Step { store: m, reply: ReplyV::Shown(m[q[1]]) }
    }
}

/// The meaning of `update`, in its four shapes: 5 tokens replace one
/// attribute and keep the other, 7 tokens replace both, with the values
/// taken from the positions the flag order dictates. A token count
/// outside {5, 7} is rejected first; then an unrecognized flag or flag
/// pair; then a missing identifier. The record is replaced atomically.
pub open spec fn update_spec(m: Map<Seq<char>, BugV>, q: Seq<Seq<char>>) -> Step {
    if q.len() != 5 && q.len() != 7 {
        Step { store: m, reply: ReplyV::Failed(ErrV::WrongCount) }
    } else if q.len() == 5 {
        if trim_spec(q[2]) == "--species"@ {
            if m.dom().contains(q[1]) {
                Step {
                    store: m.insert(
                        q[1],
                        BugV { species: q[3], description: m[q[1]].description },
                    ),
                    reply: ReplyV::Updated,
                }
            } else {
                Step { store: m, reply: ReplyV::Failed(ErrV::MissingId) }
            }
        } else if trim_spec(q[2]) == "--description"@ {
            if m.dom().contains(q[1]) {
                Step {
                    store: m.insert(q[1], BugV { species: m[q[1]].species, description: q[3] }),
                    reply: ReplyV::Updated,
                }
            } else {
                Step { store: m, reply: ReplyV::Failed(ErrV::MissingId) }
            }
        } else {
            Step { store: m, reply: ReplyV::Failed(ErrV::WrongAttrs) }
        }
    } else {
        if trim_spec(q[2]) == "--species"@ && trim_spec(q[4]) == "--description"@ {
            if m.dom().contains(q[1]) {
                Step {
                    store: m.insert(q[1], BugV { species: q[3], description: q[5] }),
                    reply: ReplyV::Updated,
                }
            } else {
                Step { store: m, reply: ReplyV::Failed(ErrV::MissingId) }
            }
        } else if trim_spec(q[2]) == "--description"@ && trim_spec(q[4]) == "--species"@ {
            if m.dom().contains(q[1]) {
                Step {
                    store: m.insert(q[1], BugV { species: q[5], description: q[3] }),
                    reply: ReplyV::Updated,
                }
            } else {
                Step { store: m, reply: ReplyV::Failed(ErrV::MissingId) }
            }
        } else {
            Step { store: m, reply: ReplyV::Failed(ErrV::WrongAttrs) }
        }
    }
}

/// The meaning of `delete`: exactly 3 quoted tokens, the whitespace token
/// at index 1 exactly `--id`, and a present identifier; the record is
/// removed with no trace.
pub open spec fn delete_spec(m: Map<Seq<char>, BugV>, q: Seq<Seq<char>>, w: Seq<Seq<char>>) -> Step
    recommends
        w.len() >= 2,
{
    if q.len() != 3 {
        Step { store: m, reply: ReplyV::Failed(ErrV::WrongCount) }
    } else if w[1] != "--id"@ {
        Step { store: m, reply: ReplyV::Failed(ErrV::WrongAttrs) }
    } else if !m.dom().contains(q[1]) {
        Step { store: m, reply: ReplyV::Failed(ErrV::MissingId) }
    } else {
        Step { store: m.remove(q[1]), reply: ReplyV::Deleted }
    }
}

/// The meaning of one raw line against the store: trim it, take both
/// token views, and route on the first whitespace token. The literal
/// `exit` or an empty trimmed line ends the session; fewer than two
/// whitespace tokens (other than `--help` alone) are a syntax error; an
/// unrecognized first token is an unknown command.
pub open spec fn step_spec(m: Map<Seq<char>, BugV>, line: Seq<char>) -> Step {
    let t = trim_spec(line);
    let w = split_spec(t, ' ');
    let q = split_spec(t, '"');
    if w[0] == "exit"@ || t.len() == 0 {
        Step { store: m, reply: ReplyV::Exit }
    } else if w.len() < 2 && w[0] != "--help"@ {
        Step { store: m, reply: ReplyV::Failed(ErrV::WrongCount) }
    } else if w[0] == "create"@ {
        create_spec(m, q, w)
    } else if w[0] == "show"@ {
        show_spec(m, q)
    } else if w[0] == "update"@ {
        update_spec(m, q)
    } else if w[0] == "delete"@ {
        delete_spec(m, q, w)
    } else if w[0] == "--help"@ {
        Step { store: m, reply: ReplyV::Help }
    } else {
        Step { store: m, reply: ReplyV::Failed(ErrV::UnknownCommand) }
    }
}

/// A command failure, as a handler reports it. A duplicate-identifier
/// failure carries a copy of the existing record, which is displayed to
/// the user.
#[derive(Eq, PartialEq, Debug)]
pub enum CmdError {
    WrongCount,
    WrongAttrs,
    UnknownCommand,
    MissingId,
    DuplicateId(Bug),
}

impl View for CmdError {
    type V = ErrV;

    open spec fn view(&self) -> ErrV {
        match self {
            CmdError::WrongCount => ErrV::WrongCount,
            CmdError::WrongAttrs => ErrV::WrongAttrs,
            CmdError::UnknownCommand => ErrV::UnknownCommand,
            CmdError::MissingId => ErrV::MissingId,
            CmdError::DuplicateId(b) => ErrV::DuplicateId(b@),
        }
    }
}

impl CmdError {
    /// The numeric code of this failure.
    pub fn code(&self) -> (c: i32)
        ensures
            c as int == code_of(self@),
    {
        match self {
            CmdError::WrongCount => 1,
            CmdError::WrongAttrs => 2,
            CmdError::UnknownCommand => 3,
            CmdError::MissingId => 4,
            CmdError::DuplicateId(_) => 5,
        }
    }
}

/// What one dispatched line produces, for the caller to print or act on.
#[derive(Eq, PartialEq, Debug)]
pub enum Reply {
    Exit,
    Help,
    Created,
    Shown(Bug),
    Updated,
    Deleted,
    Failed(CmdError),
}

impl View for Reply {
    type V = ReplyV;

    open spec fn view(&self) -> ReplyV {
        match self {
            Reply::Exit => ReplyV::Exit,
            Reply::Help => ReplyV::Help,
            Reply::Created => ReplyV::Created,
            Reply::Shown(b) => ReplyV::Shown(b@),
            Reply::Updated => ReplyV::Updated,
            Reply::Deleted => ReplyV::Deleted,
            Reply::Failed(e) => ReplyV::Failed(e@),
        }
    }
}

/// Handle `create --id "ID" --species "S" --description "D"` against the
/// store: a strict insert-if-absent. `command` is the quoted token view,
/// `whites_vector` the whitespace token view of the same line.
pub fn create(command: &Vec<String>, whites_vector: &Vec<String>, bugs: &mut Store) -> (r: Reply)
    requires
        whites_vector@.len() >= 2,
    ensures
        ({
            let st = create_spec(old(bugs)@, command.deep_view(), whites_vector.deep_view());
            final(bugs)@ == st.store && r@ == st.reply
        }),
{
    let ghost q = command.deep_view();
    let ghost w = whites_vector.deep_view();
    proof {
        assert(forall|i: int| 0 <= i < q.len() ==> q[i] == command@[i]@);
        assert(forall|i: int| 0 <= i < w.len() ==> w[i] == whites_vector@[i]@);
    }
    if command.len() != 7 {
        return Reply::Failed(CmdError::WrongCount);
    }
    let flags_ok = str_eq(whites_vector[1].as_str(), "--id") && str_eq(
        trimmed(command[2].as_str()),
        "--species",
    ) && str_eq(trimmed(command[4].as_str()), "--description");
    if !flags_ok {
        return Reply::Failed(CmdError::WrongAttrs);
    }
    let id = &command[1];
    match bugs.get(id) {
        Some(existing) => {
            let shown = Bug::new(existing.species.as_str(), existing.description.as_str());
            return Reply::Failed(CmdError::DuplicateId(shown));
        },
        None => {},
    }
    let bug = Bug::new(command[3].as_str(), command[5].as_str());
    bugs.insert(id.clone(), bug);
    Reply::Created
}

/// Handle `show "ID"`: report the record under the identifier. The store
/// is never changed.
pub fn show(command: &Vec<String>, bugs: &Store) -> (r: Reply)
    ensures
        r@ == show_spec(bugs@, command.deep_view()).reply,
{
    let ghost q = command.deep_view();
    proof {
        assert(forall|i: int| 0 <= i < q.len() ==> q[i] == command@[i]@);
    }
    if command.len() != 3 {
        return Reply::Failed(CmdError::WrongCount);
    }
    let id = &command[1];
    match bugs.get(id) {
        Some(b) => Reply::Shown(Bug::new(b.species.as_str(), b.description.as_str())),
        None => Reply::Failed(CmdError::MissingId),
    }
}

/// Handle the four shapes of `update` against the store: replace one
/// attribute and keep the other, or replace both, as the flags dictate.
pub fn update(command: &Vec<String>, bugs: &mut Store) -> (r: Reply)
    ensures
        ({
            let st = update_spec(old(bugs)@, command.deep_view());
            final(bugs)@ == st.store && r@ == st.reply
        }),
{
    let ghost q = command.deep_view();
    proof {
        assert(forall|i: int| 0 <= i < q.len() ==> q[i] == command@[i]@);
    }
    let n: usize = command.len();
    if n != 5 && n != 7 {
        return Reply::Failed(CmdError::WrongCount);
    }
    if n == 5 {
        let species_mode = str_eq(trimmed(command[2].as_str()), "--species");
        let description_mode = if species_mode {
            false
        } else {
            str_eq(trimmed(command[2].as_str()), "--description")
        };
        if !species_mode && !description_mode {
            return Reply::Failed(CmdError::WrongAttrs);
        }
        let id = &command[1];
        let existing = match bugs.get(id) {
            Some(b) => Bug::new(b.species.as_str(), b.description.as_str()),
            None => {
                return Reply::Failed(CmdError::MissingId);
            },
        };
        let bug = if species_mode {
            Bug::new(command[3].as_str(), existing.description.as_str())
        } else {
            Bug::new(existing.species.as_str(), command[3].as_str())
        };
        bugs.insert(id.clone(), bug);
        Reply::Updated
    } else {
        let in_order = str_eq(trimmed(command[2].as_str()), "--species") && str_eq(
            trimmed(command[4].as_str()),
            "--description",
        );
        let swapped = if in_order {
            false
        } else {
            str_eq(trimmed(command[2].as_str()), "--description") && str_eq(
                trimmed(command[4].as_str()),
                "--species",
            )
        };
        if !in_order && !swapped {
            return Reply::Failed(CmdError::WrongAttrs);
        }
        let id = &command[1];
        if !bugs.contains_id(id) {
            return Reply::Failed(CmdError::MissingId);
        }
        let bug = if in_order {
            Bug::new(command[3].as_str(), command[5].as_str())
        } else {
            Bug::new(command[5].as_str(), command[3].as_str())
        };
        bugs.insert(id.clone(), bug);
        Reply::Updated
    }
}

/// Handle `delete --id "ID"`: remove the record under the identifier.
pub fn delete(command: &Vec<String>, whites_vector: &Vec<String>, bugs: &mut Store) -> (r: Reply)
    requires
        whites_vector@.len() >= 2,
    ensures
        ({
            let st = delete_spec(old(bugs)@, command.deep_view(), whites_vector.deep_view());
            final(bugs)@ == st.store && r@ == st.reply
        }),
{
    let ghost q = command.deep_view();
    let ghost w = whites_vector.deep_view();
    proof {
        assert(forall|i: int| 0 <= i < q.len() ==> q[i] == command@[i]@);
        assert(forall|i: int| 0 <= i < w.len() ==> w[i] == whites_vector@[i]@);
    }
    if command.len() != 3 {
        return Reply::Failed(CmdError::WrongCount);
    }
    if !str_eq(whites_vector[1].as_str(), "--id") {
        return Reply::Failed(CmdError::WrongAttrs);
    }
    let id = &command[1];
    if !bugs.contains_id(id) {
        return Reply::Failed(CmdError::MissingId);
    }
    bugs.remove(id);
    Reply::Deleted
}

/// Route one raw input line: tokenize it and dispatch on the first
/// whitespace token. The caller prints the reply and, on `Exit`, flushes
/// the store.
pub fn dispatch(line: &str, bugs: &mut Store) -> (r: Reply)
    ensures
        ({
            let st = step_spec(old(bugs)@, line@);
            final(bugs)@ == st.store && r@ == st.reply
        }),
{
    proof {
        reveal_strlit("exit");
        reveal_strlit("create");
        reveal_strlit("show");
        reveal_strlit("update");
        reveal_strlit("delete");
        reveal_strlit("--help");
        assert("create"@[0] == 'c');
        assert("delete"@[0] == 'd');
        assert("--help"@[0] == '-');
    }
    let t = trimmed(line);
    let whites = split_on_char(t, ' ');
    let quoted = split_on_char(t, '"');
    proof {
        lemma_split_len(t@, ' ');
        assert(whites@.len() == whites.deep_view().len());
        assert(forall|i: int| 0 <= i < whites@.len() ==> whites.deep_view()[i] == whites@[i]@);
    }
    let first = &whites[0];
    if str_eq(first.as_str(), "exit") || t.is_empty() {
        return Reply::Exit;
    }
    if whites.len() < 2 && !str_eq(first.as_str(), "--help") {
        return Reply::Failed(CmdError::WrongCount);
    }
    if str_eq(first.as_str(), "create") {
        create(&quoted, &whites, bugs)
    } else if str_eq(first.as_str(), "show") {
        show(&quoted, &*bugs)
    } else if str_eq(first.as_str(), "update") {
        update(&quoted, bugs)
    } else if str_eq(first.as_str(), "delete") {
        delete(&quoted, &whites, bugs)
    } else if str_eq(first.as_str(), "--help") {
        Reply::Help
    } else {
        Reply::Failed(CmdError::UnknownCommand)
    }
}

/// Law: no command changes the store on a failure path, and `show` never
/// changes it at all.
pub proof fn lemma_no_partial_writes(m: Map<Seq<char>, BugV>, q: Seq<Seq<char>>, w: Seq<Seq<char>>)
    ensures
        (create_spec(m, q, w).reply matches ReplyV::Failed(_)) ==> create_spec(m, q, w).store == m,
        show_spec(m, q).store == m,
        (update_spec(m, q).reply matches ReplyV::Failed(_)) ==> update_spec(m, q).store == m,
        (delete_spec(m, q, w).reply matches ReplyV::Failed(_)) ==> delete_spec(m, q, w).store == m,
{
}

/// Law: a valid `create` of a fresh identifier followed by `show` of that
/// identifier reports exactly the species and description supplied.
pub proof fn lemma_create_then_show(
    m: Map<Seq<char>, BugV>,
    q: Seq<Seq<char>>,
    w: Seq<Seq<char>>,
    sq: Seq<Seq<char>>,
)
    requires
        w.len() >= 2,
        q.len() == 7,
        w[1] == "--id"@,
        trim_spec(q[2]) == "--species"@,
        trim_spec(q[4]) == "--description"@,
        !m.dom().contains(q[1]),
        sq.len() == 3,
        sq[1] == q[1],
    ensures
        create_spec(m, q, w).reply == ReplyV::Created,
        show_spec(create_spec(m, q, w).store, sq).reply == ReplyV::Shown(
            BugV { species: q[3], description: q[5] },
        ),
{
}

/// Law: `create` with a pre-existing identifier never changes the store
/// and always fails with code 5, carrying the existing record unchanged.
pub proof fn lemma_create_existing(m: Map<Seq<char>, BugV>, q: Seq<Seq<char>>, w: Seq<Seq<char>>)
    requires
        w.len() >= 2,
        q.len() == 7,
        w[1] == "--id"@,
        trim_spec(q[2]) == "--species"@,
        trim_spec(q[4]) == "--description"@,
        m.dom().contains(q[1]),
    ensures
        create_spec(m, q, w).store == m,
        create_spec(m, q, w).reply == ReplyV::Failed(ErrV::DuplicateId(m[q[1]])),
        code_of(ErrV::DuplicateId(m[q[1]])) == 5,
{
}

/// Law: in each of the four `update` shapes the untouched attribute keeps
/// its prior value byte for byte, and each touched attribute takes the
/// value from the position its flag dictates.
pub proof fn lemma_update_shapes(m: Map<Seq<char>, BugV>, q: Seq<Seq<char>>)
    requires
        m.dom().contains(q[1]),
    ensures
        q.len() == 5 && trim_spec(q[2]) == "--species"@ ==> update_spec(m, q).reply
            == ReplyV::Updated && update_spec(m, q).store[q[1]] == (BugV {
            species: q[3],
            description: m[q[1]].description,
        }),
        q.len() == 5 && trim_spec(q[2]) == "--description"@ ==> update_spec(m, q).reply
            == ReplyV::Updated && update_spec(m, q).store[q[1]] == (BugV {
            species: m[q[1]].species,
            description: q[3],
        }),
        q.len() == 7 && trim_spec(q[2]) == "--species"@ && trim_spec(q[4]) == "--description"@
            ==> update_spec(m, q).reply == ReplyV::Updated && update_spec(m, q).store[q[1]]
            == (BugV { species: q[3], description: q[5] }),
        q.len() == 7 && trim_spec(q[2]) == "--description"@ && trim_spec(q[4]) == "--species"@
            ==> update_spec(m, q).reply == ReplyV::Updated && update_spec(m, q).store[q[1]]
            == (BugV { species: q[5], description: q[3] }),
{
    reveal_strlit("--species");
    reveal_strlit("--description");
    assert("--species"@.len() == 9);
    assert("--description"@.len() == 13);
}

/// Law: after a successful `delete`, a `show` of the same identifier
/// always fails with code 4.
pub proof fn lemma_delete_then_show(
    m: Map<Seq<char>, BugV>,
    dq: Seq<Seq<char>>,
    dw: Seq<Seq<char>>,
    sq: Seq<Seq<char>>,
)
    requires
        dw.len() >= 2,
        dq.len() == 3,
        dw[1] == "--id"@,
        m.dom().contains(dq[1]),
        sq.len() == 3,
        sq[1] == dq[1],
    ensures
        delete_spec(m, dq, dw).reply == ReplyV::Deleted,
        show_spec(delete_spec(m, dq, dw).store, sq).reply == ReplyV::Failed(ErrV::MissingId),
        code_of(ErrV::MissingId) == 4,
{
}

/// Law: a `create` whose quoted view has 6 or 8 tokens always fails with
/// the token-count code 1, never the attribute code 2.
pub proof fn lemma_create_count_boundary(
    m: Map<Seq<char>, BugV>,
    q: Seq<Seq<char>>,
    w: Seq<Seq<char>>,
)
    requires
        q.len() == 6 || q.len() == 8,
    ensures
        create_spec(m, q, w).store == m,
        create_spec(m, q, w).reply == ReplyV::Failed(ErrV::WrongCount),
        code_of(ErrV::WrongCount) == 1,
{
}

} // verus!
