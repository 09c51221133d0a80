//! The commitment tree in the database.
//!
//! The tables of the tree are shared by all networks, and are made when the tree is first used.
//! A small table of its own says which network the tree belongs to. Before the tree is used under
//! another network, what it holds has to go.

use vstd::prelude::*;
use vstd::string::*;

use crate::sql::{plain_statement, text, Database, SqlModel, SqlValue, Statement, StatementModel};
use crate::text::same_text;

verus! {

/// The number of tables that the tree has.
pub const COMMITMENT_TREE_TABLE_COUNT: usize = 4;

/// The table that says which network the tree belongs to.
pub const COMMITMENT_TREE_META_TABLE: &'static str = "shielded_commitment_tree_meta";

/// Creates that table.
pub const CREATE_TREE_META: &'static str = "CREATE TABLE IF NOT EXISTS shielded_commitment_tree_meta (
    singleton INTEGER PRIMARY KEY CHECK (singleton = 0),
    network TEXT
)";

/// Selects the network that the tree belongs to.
pub const SELECT_TREE_OWNER: &'static str = "SELECT network FROM shielded_commitment_tree_meta WHERE singleton = 0";

/// Sets the network that the tree belongs to.
pub const REPLACE_TREE_OWNER: &'static str = "INSERT INTO shielded_commitment_tree_meta (singleton, network)
 VALUES (0, ?1)
 ON CONFLICT(singleton) DO UPDATE SET network = excluded.network";

/// Forgets the network that the tree belongs to.
pub const DELETE_TREE_OWNER: &'static str = "DELETE FROM shielded_commitment_tree_meta WHERE singleton = 0";

/// Counts the tables with a name.
pub const COUNT_TABLES: &'static str = "SELECT COUNT(*) FROM sqlite_master WHERE type='table' AND name=?1";

/// The name of a table of the tree.
pub open spec fn tree_table(k: int) -> Seq<char> {
    if k == 0 {
        "commitment_tree_shards"@
    } else if k == 1 {
        "commitment_tree_cap"@
    } else if k == 2 {
        "commitment_tree_checkpoints"@
    } else {
        "commitment_tree_checkpoint_marks_removed"@
    }
}

/// The name of a table of the tree.
fn tree_table_name(k: usize) -> (r: &'static str)
    requires
        k < COMMITMENT_TREE_TABLE_COUNT,
    ensures
        r@ == tree_table(k as int),
{
    if k == 0 {
        "commitment_tree_shards"
    } else if k == 1 {
        "commitment_tree_cap"
    } else if k == 2 {
        "commitment_tree_checkpoints"
    } else {
        "commitment_tree_checkpoint_marks_removed"
    }
}

/// What is done with the tree.
#[derive(Clone, Copy, Debug, PartialEq, Eq, Structural)]
pub enum TreePurpose {
    /// Bind the tree to a network.
    Prepare,
    /// Clear the tree of a network.
    Clear,
}

/// A statement that changes the database.
#[derive(Clone, Copy, Debug, PartialEq, Eq, Structural)]
pub enum TreeCommandStage {
    /// Make sure that the owner can be read.
    EnsureMeta(TreePurpose),
    /// Delete the rows of a table.
    EmptyTable(TreePurpose, usize),
    /// Make sure that the owner can be written.
    EnsureMetaForOwner,
    /// Write the owner.
    WriteOwner,
    /// Delete the owner.
    DropOwner,
}

/// A statement whose answer is a number.
#[derive(Clone, Copy, Debug, PartialEq, Eq, Structural)]
pub enum TreeQuestionStage {
    /// Is there such a table, so that it may have rows?
    TableExists(usize),
    /// Does the table have rows?
    TableHasRows(usize),
    /// Is there such a table, so that it can be emptied?
    TableToEmptyExists(TreePurpose, usize),
    /// Is there a table with the owner?
    MetaExists,
}

/// Waits for a statement to be executed.
pub struct TreeCommand {
    network: String,
    stage: TreeCommandStage,
}

/// Waits for the network that the tree belongs to.
pub struct TreeOwnerRead {
    network: String,
    purpose: TreePurpose,
}

/// Waits for the answer to a question.
pub struct TreeQuestion {
    network: String,
    stage: TreeQuestionStage,
}

/// What to do next.
pub enum TreeStep<E> {
    /// Execute the statement.
    Execute(TreeCommand),
    /// Query the owner. There may be none.
    ReadOwner(TreeOwnerRead),
    /// Query a number.
    Ask(TreeQuestion),
    /// It is done, or a statement failed.
    Done(Result<(), E>),
}

/// The contents of a `TreeStep`.
pub enum TreeModel<E> {
    Execute(TreeCommandStage, Seq<char>),
    ReadOwner(TreePurpose, Seq<char>),
    Ask(TreeQuestionStage, Seq<char>),
    Done(Result<(), E>),
}

impl View for TreeCommand {
    type V = (TreeCommandStage, Seq<char>);

    closed spec fn view(&self) -> (TreeCommandStage, Seq<char>) {
        (self.stage, self.network@)
    }
}

impl View for TreeOwnerRead {
    type V = (TreePurpose, Seq<char>);

    closed spec fn view(&self) -> (TreePurpose, Seq<char>) {
        (self.purpose, self.network@)
    }
}

impl View for TreeQuestion {
    type V = (TreeQuestionStage, Seq<char>);

    closed spec fn view(&self) -> (TreeQuestionStage, Seq<char>) {
        (self.stage, self.network@)
    }
}

impl<E> View for TreeStep<E> {
    type V = TreeModel<E>;

    open spec fn view(&self) -> TreeModel<E> {
        match self {
            TreeStep::Execute(command) => TreeModel::Execute(command@.0, command@.1),
            TreeStep::ReadOwner(read) => TreeModel::ReadOwner(read@.0, read@.1),
            TreeStep::Ask(question) => TreeModel::Ask(question@.0, question@.1),
            TreeStep::Done(r) => TreeModel::Done(*r),
        }
    }
}

impl TreeCommandStage {
    /// Whether the stage is about a table that the tree has.
    pub open spec fn well_formed(self) -> bool {
        match self {
            TreeCommandStage::EmptyTable(_, k) => k < COMMITMENT_TREE_TABLE_COUNT,
            _ => true,
        }
    }
}

impl TreeQuestionStage {
    /// Whether the stage is about a table that the tree has.
    pub open spec fn well_formed(self) -> bool {
        match self {
            TreeQuestionStage::TableExists(k) => k < COMMITMENT_TREE_TABLE_COUNT,
            TreeQuestionStage::TableHasRows(k) => k < COMMITMENT_TREE_TABLE_COUNT,
            TreeQuestionStage::TableToEmptyExists(_, k) => k < COMMITMENT_TREE_TABLE_COUNT,
            TreeQuestionStage::MetaExists => true,
        }
    }
}

impl TreeCommand {
    /// The command is about a table that the tree has.
    #[verifier::type_invariant]
    spec fn has_its_table(self) -> bool {
        self.stage.well_formed()
    }
}

impl TreeQuestion {
    /// The question is about a table that the tree has.
    #[verifier::type_invariant]
    spec fn has_its_table(self) -> bool {
        self.stage.well_formed()
    }
}

impl<E> TreeModel<E> {
    /// Whether the step is about tables that the tree has.
    pub open spec fn well_formed(self) -> bool {
        match self {
            TreeModel::Execute(stage, _) => stage.well_formed(),
            TreeModel::Ask(stage, _) => stage.well_formed(),
            _ => true,
        }
    }
}

/// The step that looks for rows in the tables from `k` on. Where there are none, the tree is
/// bound as it is.
pub open spec fn look_from<E>(network: Seq<char>, k: int) -> TreeModel<E> {
    if k < COMMITMENT_TREE_TABLE_COUNT {
        TreeModel::Ask(TreeQuestionStage::TableExists(k as usize), network)
    } else {
        TreeModel::Execute(TreeCommandStage::EnsureMetaForOwner, network)
    }
}

/// The step that empties the tables from `k` on. Behind the last, the tree is bound to its new
/// owner, or loses the one it has.
pub open spec fn empty_from<E>(purpose: TreePurpose, network: Seq<char>, k: int) -> TreeModel<E> {
    if k < COMMITMENT_TREE_TABLE_COUNT {
        TreeModel::Ask(TreeQuestionStage::TableToEmptyExists(purpose, k as usize), network)
    } else {
        match purpose {
            TreePurpose::Prepare => TreeModel::Execute(
                TreeCommandStage::EnsureMetaForOwner,
                network,
            ),
            TreePurpose::Clear => TreeModel::Ask(TreeQuestionStage::MetaExists, network),
        }
    }
}

/// The step after a statement was executed.
pub open spec fn after_command<E>(stage: TreeCommandStage, network: Seq<char>) -> TreeModel<E> {
    match stage {
        TreeCommandStage::EnsureMeta(purpose) => TreeModel::ReadOwner(purpose, network),
        TreeCommandStage::EmptyTable(purpose, k) => empty_from(purpose, network, k + 1),
        TreeCommandStage::EnsureMetaForOwner => TreeModel::Execute(
            TreeCommandStage::WriteOwner,
            network,
        ),
        TreeCommandStage::WriteOwner => TreeModel::Done(Ok(())),
        TreeCommandStage::DropOwner => TreeModel::Done(Ok(())),
    }
}

/// The step after the owner was read. A tree that belongs to the network need not be prepared,
/// and one that does not is not cleared.
pub open spec fn after_owner<E>(
    purpose: TreePurpose,
    network: Seq<char>,
    owner: Option<Seq<char>>,
) -> TreeModel<E> {
    let owned = owner == Some(network);
    match purpose {
        TreePurpose::Prepare => if owned {
            TreeModel::Done(Ok(()))
        } else {
            look_from(network, 0)
        },
        TreePurpose::Clear => if owned {
            empty_from(TreePurpose::Clear, network, 0)
        } else {
            TreeModel::Done(Ok(()))
        },
    }
}

/// The step after a question was answered.
pub open spec fn after_answer<E>(
    stage: TreeQuestionStage,
    network: Seq<char>,
    answer: i64,
) -> TreeModel<E> {
    match stage {
        TreeQuestionStage::TableExists(k) => if answer > 0 {
            TreeModel::Ask(TreeQuestionStage::TableHasRows(k), network)
        } else {
            look_from(network, k + 1)
        },
        TreeQuestionStage::TableHasRows(k) => if answer != 0 {
            empty_from(TreePurpose::Prepare, network, 0)
        } else {
            look_from(network, k + 1)
        },
        TreeQuestionStage::TableToEmptyExists(purpose, k) => if answer > 0 {
            TreeModel::Execute(TreeCommandStage::EmptyTable(purpose, k), network)
        } else {
            empty_from(purpose, network, k + 1)
        },
        TreeQuestionStage::MetaExists => if answer > 0 {
            TreeModel::Execute(TreeCommandStage::DropOwner, network)
        } else {
            TreeModel::Done(Ok(()))
        },
    }
}

/// Makes the step that looks for rows in the tables from `k` on.
fn go_on_looking<E>(network: String, k: usize) -> (r: TreeStep<E>)
    ensures
        r@ == look_from::<E>(network@, k as int),
        r@.well_formed(),
{
    if k < COMMITMENT_TREE_TABLE_COUNT {
        TreeStep::Ask(TreeQuestion { network, stage: TreeQuestionStage::TableExists(k) })
    } else {
        TreeStep::Execute(TreeCommand { network, stage: TreeCommandStage::EnsureMetaForOwner })
    }
}

/// Makes the step that empties the tables from `k` on.
fn go_on_emptying<E>(purpose: TreePurpose, network: String, k: usize) -> (r: TreeStep<E>)
    ensures
        r@ == empty_from::<E>(purpose, network@, k as int),
        r@.well_formed(),
{
    if k < COMMITMENT_TREE_TABLE_COUNT {
        return TreeStep::Ask(
            TreeQuestion { network, stage: TreeQuestionStage::TableToEmptyExists(purpose, k) },
        );
    }
    match purpose {
        TreePurpose::Prepare => TreeStep::Execute(
            TreeCommand { network, stage: TreeCommandStage::EnsureMetaForOwner },
        ),
        TreePurpose::Clear => TreeStep::Ask(
            TreeQuestion { network, stage: TreeQuestionStage::MetaExists },
        ),
    }
}

/// The statement of a command.
pub open spec fn command_statement(stage: TreeCommandStage, network: Seq<char>) -> StatementModel {
    match stage {
        TreeCommandStage::EnsureMeta(_) => StatementModel {
            sql: CREATE_TREE_META@,
            params: seq![],
        },
        TreeCommandStage::EmptyTable(_, k) => StatementModel {
            sql: "DELETE FROM "@ + tree_table(k as int),
            params: seq![],
        },
        TreeCommandStage::EnsureMetaForOwner => StatementModel {
            sql: CREATE_TREE_META@,
            params: seq![],
        },
        TreeCommandStage::WriteOwner => StatementModel {
            sql: REPLACE_TREE_OWNER@,
            params: seq![SqlModel::Text(network)],
        },
        TreeCommandStage::DropOwner => StatementModel { sql: DELETE_TREE_OWNER@, params: seq![] },
    }
}

/// The statement of a question.
pub open spec fn question_statement(stage: TreeQuestionStage) -> StatementModel {
    match stage {
        TreeQuestionStage::TableExists(k) => StatementModel {
            sql: COUNT_TABLES@,
            params: seq![SqlModel::Text(tree_table(k as int))],
        },
        TreeQuestionStage::TableHasRows(k) => StatementModel {
            sql: "SELECT EXISTS(SELECT 1 FROM "@ + tree_table(k as int) + " LIMIT 1)"@,
            params: seq![],
        },
        TreeQuestionStage::TableToEmptyExists(_, k) => StatementModel {
            sql: COUNT_TABLES@,
            params: seq![SqlModel::Text(tree_table(k as int))],
        },
        TreeQuestionStage::MetaExists => StatementModel {
            sql: COUNT_TABLES@,
            params: seq![SqlModel::Text(COMMITMENT_TREE_META_TABLE@)],
        },
    }
}

/// Makes a statement with a text for its parameter.
fn text_statement(sql: &str, param: &str) -> (r: Statement)
    ensures
        r@ == (StatementModel { sql: sql@, params: seq![SqlModel::Text(param@)] }),
{
    let params: Vec<SqlValue> = vec![text(param)];
    let r = Statement { sql: sql.to_owned(), params };
    assert(r@.params =~= seq![SqlModel::Text(param@)]);
    r
}

impl TreeCommand {
    /// The statement to execute.
    pub fn statement(&self) -> (r: Statement)
        ensures
            r@ == command_statement(self@.0, self@.1),
    {
        proof {
            use_type_invariant(self);
        }
        match self.stage {
            TreeCommandStage::EnsureMeta(_) => plain_statement(CREATE_TREE_META.to_owned()),
            TreeCommandStage::EmptyTable(_, k) => plain_statement(
                "DELETE FROM ".to_owned().concat(tree_table_name(k)),
            ),
            TreeCommandStage::EnsureMetaForOwner => plain_statement(CREATE_TREE_META.to_owned()),
            TreeCommandStage::WriteOwner => text_statement(
                REPLACE_TREE_OWNER,
                self.network.as_str(),
            ),
            TreeCommandStage::DropOwner => plain_statement(DELETE_TREE_OWNER.to_owned()),
        }
    }

    /// Goes on once the statement was executed, or failed.
    pub fn resume<E>(self, executed: Result<(), E>) -> (r: TreeStep<E>)
        ensures
            r@ == match executed {
                Ok(()) => after_command(self@.0, self@.1),
                Err(e) => TreeModel::Done(Err(e)),
            },
            r@.well_formed(),
    {
        proof {
            use_type_invariant(&self);
        }
        if let Err(e) = executed {
            return TreeStep::Done(Err(e));
        }
        let network = self.network;
        match self.stage {
            TreeCommandStage::EnsureMeta(purpose) => TreeStep::ReadOwner(
                TreeOwnerRead { network, purpose },
            ),
            TreeCommandStage::EmptyTable(purpose, k) => go_on_emptying(purpose, network, k + 1),
            TreeCommandStage::EnsureMetaForOwner => TreeStep::Execute(
                TreeCommand { network, stage: TreeCommandStage::WriteOwner },
            ),
            TreeCommandStage::WriteOwner => TreeStep::Done(Ok(())),
            TreeCommandStage::DropOwner => TreeStep::Done(Ok(())),
        }
    }
}

impl TreeOwnerRead {
    /// The statement to query.
    pub fn statement(&self) -> (r: Statement)
        ensures
            r@ == (StatementModel { sql: SELECT_TREE_OWNER@, params: seq![] }),
    {
        plain_statement(SELECT_TREE_OWNER.to_owned())
    }

    /// Goes on with the network that the tree belongs to, if there is one.
    pub fn resume<E>(self, owner: Result<Option<String>, E>) -> (r: TreeStep<E>)
        ensures
            r@ == match owner {
                Ok(Some(owner)) => after_owner(self@.0, self@.1, Some(owner@)),
                Ok(None) => after_owner(self@.0, self@.1, None),
                Err(e) => TreeModel::Done(Err(e)),
            },
            r@.well_formed(),
    {
        let owned = match owner {
            Ok(Some(owner)) => same_text(owner.as_str(), self.network.as_str()),
            Ok(None) => false,
            Err(e) => {
                return TreeStep::Done(Err(e));
            },
        };
        match self.purpose {
            TreePurpose::Prepare => if owned {
                TreeStep::Done(Ok(()))
            } else {
                go_on_looking(self.network, 0)
            },
            TreePurpose::Clear => if owned {
                go_on_emptying(TreePurpose::Clear, self.network, 0)
            } else {
                TreeStep::Done(Ok(()))
            },
        }
    }
}

impl TreeQuestion {
    /// The statement to query.
    pub fn statement(&self) -> (r: Statement)
        ensures
            r@ == question_statement(self@.0),
    {
        proof {
            use_type_invariant(self);
        }
        match self.stage {
            TreeQuestionStage::TableExists(k) => text_statement(COUNT_TABLES, tree_table_name(k)),
            TreeQuestionStage::TableHasRows(k) => plain_statement(
                "SELECT EXISTS(SELECT 1 FROM ".to_owned().concat(tree_table_name(k)).concat(
                    " LIMIT 1)",
                ),
            ),
            TreeQuestionStage::TableToEmptyExists(_, k) => text_statement(
                COUNT_TABLES,
                tree_table_name(k),
            ),
            TreeQuestionStage::MetaExists => text_statement(
                COUNT_TABLES,
                COMMITMENT_TREE_META_TABLE,
            ),
        }
    }

    /// Goes on with the answer.
    pub fn resume<E>(self, answer: Result<i64, E>) -> (r: TreeStep<E>)
        ensures
            r@ == match answer {
                Ok(answer) => after_answer(self@.0, self@.1, answer),
                Err(e) => TreeModel::Done(Err(e)),
            },
            r@.well_formed(),
    {
        proof {
            use_type_invariant(&self);
        }
        let answer: i64 = match answer {
            Ok(answer) => answer,
            Err(e) => {
                return TreeStep::Done(Err(e));
            },
        };
        let network = self.network;
        match self.stage {
            TreeQuestionStage::TableExists(k) => if answer > 0 {
                TreeStep::Ask(TreeQuestion { network, stage: TreeQuestionStage::TableHasRows(k) })
            } else {
                go_on_looking(network, k + 1)
            },
            TreeQuestionStage::TableHasRows(k) => if answer != 0 {
                go_on_emptying(TreePurpose::Prepare, network, 0)
            } else {
                go_on_looking(network, k + 1)
            },
            TreeQuestionStage::TableToEmptyExists(purpose, k) => if answer > 0 {
                TreeStep::Execute(
                    TreeCommand { network, stage: TreeCommandStage::EmptyTable(purpose, k) },
                )
            } else {
                go_on_emptying(purpose, network, k + 1)
            },
            TreeQuestionStage::MetaExists => if answer > 0 {
                TreeStep::Execute(TreeCommand { network, stage: TreeCommandStage::DropOwner })
            } else {
                TreeStep::Done(Ok(()))
            },
        }
    }
}

impl Database {
    /// Begins to bind the tree to a network. Where it belongs to another one, or to none, what it
    /// holds goes first.
    pub fn prepare_commitment_tree_tables<E>(&self, network: &str) -> (r: TreeStep<E>)
        ensures
            r@ == TreeModel::<E>::Execute(
                TreeCommandStage::EnsureMeta(TreePurpose::Prepare),
                network@,
            ),
    {
        TreeStep::Execute(
            TreeCommand {
                network: network.to_owned(),
                stage: TreeCommandStage::EnsureMeta(TreePurpose::Prepare),
            },
        )
    }

    /// Begins to clear the tree, if it belongs to a network.
    pub fn clear_commitment_tree_tables<E>(&self, network: &str) -> (r: TreeStep<E>)
        ensures
            r@ == TreeModel::<E>::Execute(
                TreeCommandStage::EnsureMeta(TreePurpose::Clear),
                network@,
            ),
    {
        TreeStep::Execute(
            TreeCommand {
                network: network.to_owned(),
                stage: TreeCommandStage::EnsureMeta(TreePurpose::Clear),
            },
        )
    }
}

/// What the database holds of the tree. This is a model of the statements' effect that no proof
/// ties to SQLite; `tests/shielded.rs` runs the statements on a database in memory.
pub struct TreeStore {
    /// The rows of each table, where it was made.
    pub tables: Seq<Option<Seq<Seq<u8>>>>,
    /// The network that the tree belongs to, if it does to one; nothing where the table that says
    /// so was not made.
    pub meta: Option<Option<Seq<char>>>,
}

impl TreeStore {
    /// The network that the tree belongs to.
    pub open spec fn owner(self) -> Option<Seq<char>> {
        match self.meta {
            Some(owner) => owner,
            None => None,
        }
    }

    /// What a command makes of the store.
    pub open spec fn after(self, stage: TreeCommandStage, network: Seq<char>) -> TreeStore {
        match stage {
            TreeCommandStage::EnsureMeta(_) | TreeCommandStage::EnsureMetaForOwner => TreeStore {
                meta: Some(self.owner()),
                ..self
            },
            TreeCommandStage::EmptyTable(_, k) => TreeStore {
                tables: self.tables.update(k as int, Some(seq![])),
                ..self
            },
            TreeCommandStage::WriteOwner => TreeStore { meta: Some(Some(network)), ..self },
            TreeCommandStage::DropOwner => TreeStore { meta: Some(None), ..self },
        }
    }

    /// The answer to a question.
    pub open spec fn answer(self, stage: TreeQuestionStage) -> i64 {
        let yes = match stage {
            TreeQuestionStage::TableExists(k) => self.tables[k as int] is Some,
            TreeQuestionStage::TableHasRows(k) => self.tables[k as int]->0.len() > 0,
            TreeQuestionStage::TableToEmptyExists(_, k) => self.tables[k as int] is Some,
            TreeQuestionStage::MetaExists => self.meta is Some,
        };
        if yes {
            1
        } else {
            0
        }
    }
}

/// An upper bound of the steps that are still to come.
pub open spec fn steps_left<E>(step: TreeModel<E>) -> int {
    match step {
        TreeModel::Execute(TreeCommandStage::EnsureMeta(_), _) => 32,
        TreeModel::ReadOwner(_, _) => 31,
        TreeModel::Ask(TreeQuestionStage::TableExists(k), _) => 30 - 2 * k,
        TreeModel::Ask(TreeQuestionStage::TableHasRows(k), _) => 29 - 2 * k,
        TreeModel::Ask(TreeQuestionStage::TableToEmptyExists(_, k), _) => 20 - 2 * k,
        TreeModel::Execute(TreeCommandStage::EmptyTable(_, k), _) => 19 - 2 * k,
        TreeModel::Execute(TreeCommandStage::EnsureMetaForOwner, _) => 3,
        TreeModel::Execute(TreeCommandStage::WriteOwner, _) => 2,
        TreeModel::Ask(TreeQuestionStage::MetaExists, _) => 3,
        TreeModel::Execute(TreeCommandStage::DropOwner, _) => 2,
        TreeModel::Done(_) => 0,
    }
}

/// What the store holds in the end, where no statement fails.
pub open spec fn run_on<E>(store: TreeStore, step: TreeModel<E>) -> TreeStore
    decreases steps_left(step),
{
    if !step.well_formed() {
        store
    } else {
        match step {
            TreeModel::Execute(stage, network) => run_on::<E>(
                store.after(stage, network),
                after_command(stage, network),
            ),
            TreeModel::ReadOwner(purpose, network) => run_on::<E>(
                store,
                after_owner(purpose, network, store.owner()),
            ),
            TreeModel::Ask(stage, network) => run_on::<E>(
                store,
                after_answer(stage, network, store.answer(stage)),
            ),
            TreeModel::Done(_) => store,
        }
    }
}

/// What the store holds after the tree was prepared for a network.
pub open spec fn prepared(store: TreeStore, network: Seq<char>) -> TreeStore {
    run_on::<()>(
        store,
        TreeModel::Execute(TreeCommandStage::EnsureMeta(TreePurpose::Prepare), network),
    )
}

/// What the store holds after the tree of a network was cleared.
pub open spec fn cleared(store: TreeStore, network: Seq<char>) -> TreeStore {
    run_on::<()>(
        store,
        TreeModel::Execute(TreeCommandStage::EnsureMeta(TreePurpose::Clear), network),
    )
}

/// The tables without their rows, from `k` on. No table is made.
pub open spec fn emptied_from(
    tables: Seq<Option<Seq<Seq<u8>>>>,
    k: int,
) -> Seq<Option<Seq<Seq<u8>>>> {
    Seq::new(
        tables.len(),
        |i: int|
            if i >= k && tables[i] is Some {
                Some(Seq::<Seq<u8>>::empty())
            } else {
                tables[i]
            },
    )
}

proof fn lemma_emptied(store: TreeStore, purpose: TreePurpose, network: Seq<char>, k: int)
    requires
        store.tables.len() == COMMITMENT_TREE_TABLE_COUNT,
        0 <= k <= COMMITMENT_TREE_TABLE_COUNT,
    ensures
        run_on::<()>(store, empty_from(purpose, network, k)) == run_on::<()>(
            TreeStore { tables: emptied_from(store.tables, k), ..store },
            empty_from(purpose, network, COMMITMENT_TREE_TABLE_COUNT as int),
        ),
    decreases COMMITMENT_TREE_TABLE_COUNT - k,
{
    if k == COMMITMENT_TREE_TABLE_COUNT {
        assert(emptied_from(store.tables, k) =~= store.tables);
    } else {
        let ask = TreeQuestionStage::TableToEmptyExists(purpose, k as usize);
        let command = TreeCommandStage::EmptyTable(purpose, k as usize);
        assert(empty_from::<()>(purpose, network, k) == TreeModel::<()>::Ask(ask, network));
        if store.tables[k] is Some {
            let next = store.after(command, network);
            assert(run_on::<()>(store, TreeModel::Ask(ask, network)) == run_on::<()>(
                store,
                TreeModel::Execute(command, network),
            ));
            assert(run_on::<()>(store, TreeModel::Execute(command, network)) == run_on::<()>(
                next,
                empty_from(purpose, network, k + 1),
            ));
            lemma_emptied(next, purpose, network, k + 1);
            assert(emptied_from(next.tables, k + 1) =~= emptied_from(store.tables, k));
        } else {
            lemma_emptied(store, purpose, network, k + 1);
            assert(emptied_from(store.tables, k + 1) =~= emptied_from(store.tables, k));
        }
    }
}

proof fn lemma_looked(store: TreeStore, network: Seq<char>, k: int)
    requires
        store.tables.len() == COMMITMENT_TREE_TABLE_COUNT,
        0 <= k <= COMMITMENT_TREE_TABLE_COUNT,
        forall|i: int| 0 <= i < k ==> ((#[trigger] store.tables[i]) matches Some(rows)
            ==> rows.len() == 0),
    ensures
        run_on::<()>(store, look_from(network, k)) == run_on::<()>(
            TreeStore { tables: emptied_from(store.tables, 0), ..store },
            TreeModel::Execute(TreeCommandStage::EnsureMetaForOwner, network),
        ),
    decreases COMMITMENT_TREE_TABLE_COUNT - k,
{
    if k == COMMITMENT_TREE_TABLE_COUNT {
        assert forall|i: int| 0 <= i < store.tables.len() implies emptied_from(
            store.tables,
            0,
        )[i] == #[trigger] store.tables[i] by {
            if let Some(rows) = store.tables[i] {
                assert(rows =~= Seq::<Seq<u8>>::empty());
            }
        }
        assert(emptied_from(store.tables, 0) =~= store.tables);
    } else {
        let exists = TreeQuestionStage::TableExists(k as usize);
        let rows = TreeQuestionStage::TableHasRows(k as usize);
        assert(look_from::<()>(network, k) == TreeModel::<()>::Ask(exists, network));
        if store.tables[k] is Some {
            assert(run_on::<()>(store, TreeModel::Ask(exists, network)) == run_on::<()>(
                store,
                TreeModel::Ask(rows, network),
            ));
            if store.tables[k]->0.len() > 0 {
                assert(run_on::<()>(store, TreeModel::Ask(rows, network)) == run_on::<()>(
                    store,
                    empty_from(TreePurpose::Prepare, network, 0),
                ));
                lemma_emptied(store, TreePurpose::Prepare, network, 0);
            } else {
                lemma_looked(store, network, k + 1);
            }
        } else {
            lemma_looked(store, network, k + 1);
        }
    }
}

/// A tree that was prepared belongs to the network. If it did before, it holds what it held;
/// otherwise no row is left of what it held for another network. No table is made.
pub proof fn law_prepared_tree(store: TreeStore, network: Seq<char>)
    requires
        store.tables.len() == COMMITMENT_TREE_TABLE_COUNT,
    ensures
        prepared(store, network).owner() == Some(network),
        prepared(store, network).tables == if store.owner() == Some(network) {
            store.tables
        } else {
            emptied_from(store.tables, 0)
        },
{
    let asked = TreeStore { meta: Some(store.owner()), ..store };
    let read = TreeModel::<()>::ReadOwner(TreePurpose::Prepare, network);
    assert(prepared(store, network) == run_on::<()>(asked, read));
    if store.owner() == Some(network) {
        assert(run_on::<()>(asked, read) == run_on::<()>(asked, TreeModel::Done(Ok(()))));
    } else {
        assert(run_on::<()>(asked, read) == run_on::<()>(asked, look_from(network, 0)));
        lemma_looked(asked, network, 0);
        let empty = TreeStore { tables: emptied_from(store.tables, 0), ..asked };
        let bound = TreeStore { meta: Some(Some(network)), ..empty };
        let ensure = TreeModel::<()>::Execute(TreeCommandStage::EnsureMetaForOwner, network);
        let write = TreeModel::<()>::Execute(TreeCommandStage::WriteOwner, network);
        assert(run_on::<()>(empty, ensure) == run_on::<()>(empty, write));
        assert(run_on::<()>(empty, write) == run_on::<()>(bound, TreeModel::Done(Ok(()))));
        assert(run_on::<()>(bound, TreeModel::Done(Ok(()))) == bound);
    }
}

/// Clearing touches only the tree of the network: it then holds nothing and belongs to none. A
/// tree that belongs to another network keeps its rows and its owner.
pub proof fn law_cleared_tree(store: TreeStore, network: Seq<char>)
    requires
        store.tables.len() == COMMITMENT_TREE_TABLE_COUNT,
    ensures
        store.owner() == Some(network) ==> cleared(store, network).tables == emptied_from(
            store.tables,
            0,
        ) && cleared(store, network).owner() is None,
        store.owner() != Some(network) ==> cleared(store, network).tables == store.tables
            && cleared(store, network).owner() == store.owner(),
{
    let asked = TreeStore { meta: Some(store.owner()), ..store };
    let read = TreeModel::<()>::ReadOwner(TreePurpose::Clear, network);
    assert(cleared(store, network) == run_on::<()>(asked, read));
    if store.owner() == Some(network) {
        assert(run_on::<()>(asked, read) == run_on::<()>(
            asked,
            empty_from(TreePurpose::Clear, network, 0),
        ));
        lemma_emptied(asked, TreePurpose::Clear, network, 0);
        let empty = TreeStore { tables: emptied_from(store.tables, 0), ..asked };
        let ask = TreeModel::<()>::Ask(TreeQuestionStage::MetaExists, network);
        let command = TreeModel::<()>::Execute(TreeCommandStage::DropOwner, network);
        let free = TreeStore { meta: Some(None), ..empty };
        assert(run_on::<()>(empty, ask) == run_on::<()>(empty, command));
        assert(run_on::<()>(empty, command) == run_on::<()>(free, TreeModel::Done(Ok(()))));
        assert(run_on::<()>(free, TreeModel::Done(Ok(()))) == free);
    } else {
        assert(run_on::<()>(asked, read) == run_on::<()>(asked, TreeModel::Done(Ok(()))));
    }
}

/// To prepare a tree again for the same network changes nothing.
pub proof fn law_preparing_twice(store: TreeStore, network: Seq<char>)
    requires
        store.tables.len() == COMMITMENT_TREE_TABLE_COUNT,
    ensures
        prepared(prepared(store, network), network).tables == prepared(store, network).tables,
        prepared(prepared(store, network), network).owner() == prepared(store, network).owner(),
{
    law_prepared_tree(store, network);
    law_prepared_tree(prepared(store, network), network);
}

/// Whatever a tree held, nothing of it is left after it went from one network to another.
pub proof fn law_networks_share_no_rows(store: TreeStore, first: Seq<char>, second: Seq<char>)
    requires
        store.tables.len() == COMMITMENT_TREE_TABLE_COUNT,
        store.owner() == Some(first),
        first != second,
    ensures
        forall|i: int|
            0 <= i < COMMITMENT_TREE_TABLE_COUNT ==> ((#[trigger] prepared(
                store,
                second,
            ).tables[i]) matches Some(rows) ==> rows.len() == 0),
{
    law_prepared_tree(store, second);
}

/// The tree has four tables, each under its own name.
pub proof fn law_tables_have_their_names()
    ensures
        COMMITMENT_TREE_TABLE_COUNT == 4,
        tree_table(0) == "commitment_tree_shards"@,
        tree_table(1) == "commitment_tree_cap"@,
        tree_table(2) == "commitment_tree_checkpoints"@,
        tree_table(3) == "commitment_tree_checkpoint_marks_removed"@,
        forall|j: int, k: int|
            0 <= j < 4 && 0 <= k < 4 && j != k ==> #[trigger] tree_table(j) != #[trigger] tree_table(
                k,
            ),
        forall|k: int| 0 <= k < 4 ==> #[trigger] tree_table(k) != COMMITMENT_TREE_META_TABLE@,
{
    reveal_strlit("commitment_tree_shards");
    reveal_strlit("commitment_tree_cap");
    reveal_strlit("commitment_tree_checkpoints");
    reveal_strlit("commitment_tree_checkpoint_marks_removed");
    reveal_strlit("shielded_commitment_tree_meta");
    assert(tree_table(0).len() == 22);
    assert(tree_table(1).len() == 19);
    assert(tree_table(2).len() == 27);
    assert(tree_table(3).len() == 40);
    assert(COMMITMENT_TREE_META_TABLE@.len() == 29);
}

/// Whatever the purpose, what is emptied is the table whose existence was asked for: the question
/// binds its name, and the statement deletes from that name. It is the same for the question
/// whether the table has rows.
pub proof fn law_statements_name_the_table_asked_for(
    purpose: TreePurpose,
    k: usize,
    network: Seq<char>,
)
    requires
        k < 4,
    ensures
        ({
            let asked = question_statement(TreeQuestionStage::TableToEmptyExists(purpose, k));
            let looked = question_statement(TreeQuestionStage::TableExists(k));
            let rows = question_statement(TreeQuestionStage::TableHasRows(k));
            let emptied = command_statement(TreeCommandStage::EmptyTable(purpose, k), network);
            &&& asked.sql
                == "SELECT COUNT(*) FROM sqlite_master WHERE type='table' AND name=?1"@
            &&& asked.params.len() == 1
            &&& asked.params[0] == SqlModel::Text(tree_table(k as int))
            &&& looked.sql == asked.sql
            &&& looked.params == asked.params
            &&& emptied.sql == "DELETE FROM "@ + asked.params[0]->Text_0
            &&& emptied.params.len() == 0
            &&& rows.sql == "SELECT EXISTS(SELECT 1 FROM "@ + looked.params[0]->Text_0
                + " LIMIT 1)"@
            &&& rows.params.len() == 0
        }),
{
}

/// The owner stands in a table of its own, which is made, read, written and looked for under the
/// same name. The network that is written is the one that the tree is bound to.
pub proof fn law_owner_has_its_table(purpose: TreePurpose, network: Seq<char>)
    ensures
        SELECT_TREE_OWNER@
            == "SELECT network FROM shielded_commitment_tree_meta WHERE singleton = 0"@,
        command_statement(TreeCommandStage::EnsureMeta(purpose), network) == command_statement(
            TreeCommandStage::EnsureMetaForOwner,
            network,
        ),
        command_statement(TreeCommandStage::EnsureMetaForOwner, network).sql
            == "CREATE TABLE IF NOT EXISTS shielded_commitment_tree_meta (
    singleton INTEGER PRIMARY KEY CHECK (singleton = 0),
    network TEXT
)"@,
        command_statement(TreeCommandStage::EnsureMetaForOwner, network).params.len() == 0,
        command_statement(TreeCommandStage::WriteOwner, network).sql
            == "INSERT INTO shielded_commitment_tree_meta (singleton, network)
 VALUES (0, ?1)
 ON CONFLICT(singleton) DO UPDATE SET network = excluded.network"@,
        command_statement(TreeCommandStage::WriteOwner, network).params.len() == 1,
        command_statement(TreeCommandStage::WriteOwner, network).params[0] == SqlModel::Text(
            network,
        ),
        command_statement(TreeCommandStage::DropOwner, network).sql
            == "DELETE FROM shielded_commitment_tree_meta WHERE singleton = 0"@,
        command_statement(TreeCommandStage::DropOwner, network).params.len() == 0,
        question_statement(TreeQuestionStage::MetaExists).sql
            == "SELECT COUNT(*) FROM sqlite_master WHERE type='table' AND name=?1"@,
        question_statement(TreeQuestionStage::MetaExists).params.len() == 1,
        question_statement(TreeQuestionStage::MetaExists).params[0] == SqlModel::Text(
            "shielded_commitment_tree_meta"@,
        ),
{
}

/// Any positive count says that a table is there, and no other does. Any answer but 0 says that it
/// has rows.
pub proof fn law_answers_are_yes_or_no<E>(
    stage: TreeQuestionStage,
    network: Seq<char>,
    answer: i64,
)
    ensures
        stage is TableHasRows ==> after_answer::<E>(stage, network, answer) == after_answer::<E>(
            stage,
            network,
            if answer != 0 {
                1
            } else {
                0
            },
        ),
        !(stage is TableHasRows) ==> after_answer::<E>(stage, network, answer) == after_answer::<
            E,
        >(
            stage,
            network,
            if answer > 0 {
                1
            } else {
                0
            },
        ),
{
}

/// A database by the names of its tables: their rows, and the table with the owner, where it was
/// made.
pub struct NamedTables {
    pub tables: Map<Seq<char>, Seq<Seq<u8>>>,
    pub owner: Option<Option<Seq<char>>>,
}

impl NamedTables {
    /// What a statement makes of the tables, by its text: `DELETE FROM` and a name leave the table
    /// of that name without rows, and no other statement changes a row of a named table.
    pub open spec fn executed(self, statement: StatementModel) -> NamedTables {
        if statement.sql == "CREATE TABLE IF NOT EXISTS shielded_commitment_tree_meta (
    singleton INTEGER PRIMARY KEY CHECK (singleton = 0),
    network TEXT
)"@ {
            NamedTables {
                owner: Some(
                    match self.owner {
                        Some(owner) => owner,
                        None => None,
                    },
                ),
                ..self
            }
        } else if statement.sql == "INSERT INTO shielded_commitment_tree_meta (singleton, network)
 VALUES (0, ?1)
 ON CONFLICT(singleton) DO UPDATE SET network = excluded.network"@ {
            NamedTables { owner: Some(Some(statement.params[0]->Text_0)), ..self }
        } else if statement.sql
            == "DELETE FROM shielded_commitment_tree_meta WHERE singleton = 0"@ {
            NamedTables { owner: Some(None), ..self }
        } else if statement.sql.take(12) == "DELETE FROM "@ && self.tables.contains_key(
            statement.sql.skip(12),
        ) {
            NamedTables {
                tables: self.tables.insert(statement.sql.skip(12), seq![]),
                ..self
            }
        } else {
            self
        }
    }

    /// The answer to a question, by its text.
    pub open spec fn answered(self, statement: StatementModel) -> i64 {
        let yes = if statement.sql
            == "SELECT COUNT(*) FROM sqlite_master WHERE type='table' AND name=?1"@ {
            let name = statement.params[0]->Text_0;
            if name == "shielded_commitment_tree_meta"@ {
                self.owner is Some
            } else {
                self.tables.contains_key(name)
            }
        } else {
            let name = statement.sql.subrange(28, statement.sql.len() - 9);
            self.tables.contains_key(name) && self.tables[name].len() > 0
        };
        if yes {
            1
        } else {
            0
        }
    }

    /// Whether the four tables of the tree, and the owner, are as in the store.
    pub open spec fn shows(self, store: TreeStore) -> bool {
        &&& store.tables.len() == 4
        &&& self.owner == store.meta
        &&& forall|k: int|
            0 <= k < 4 ==> match #[trigger] store.tables[k] {
                Some(rows) => self.tables.contains_key(tree_table(k)) && self.tables[tree_table(k)]
                    == rows,
                None => !self.tables.contains_key(tree_table(k)),
            }
    }
}

/// Whether a table is one of the four that the tree has.
pub open spec fn is_tree_table(name: Seq<char>) -> bool {
    ||| name == "commitment_tree_shards"@
    ||| name == "commitment_tree_cap"@
    ||| name == "commitment_tree_checkpoints"@
    ||| name == "commitment_tree_checkpoint_marks_removed"@
}

/// Whether a table is as it was, or was and is not there.
pub open spec fn is_kept(before: NamedTables, after: NamedTables, name: Seq<char>) -> bool {
    &&& after.tables.contains_key(name) <==> before.tables.contains_key(name)
    &&& before.tables.contains_key(name) ==> after.tables[name] == before.tables[name]
}

/// Whether a table has lost its rows, or was and is not there.
pub open spec fn is_emptied(before: NamedTables, after: NamedTables, name: Seq<char>) -> bool {
    &&& after.tables.contains_key(name) <==> before.tables.contains_key(name)
    &&& before.tables.contains_key(name) ==> after.tables[name].len() == 0
}

/// What the tables hold in the end, where each statement has the effect that its text says.
pub open spec fn run_named<E>(db: NamedTables, step: TreeModel<E>) -> NamedTables
    decreases steps_left(step),
{
    if !step.well_formed() {
        db
    } else {
        match step {
            TreeModel::Execute(stage, network) => run_named::<E>(
                db.executed(command_statement(stage, network)),
                after_command(stage, network),
            ),
            TreeModel::ReadOwner(purpose, network) => run_named::<E>(
                db,
                after_owner(
                    purpose,
                    network,
                    match db.owner {
                        Some(owner) => owner,
                        None => None,
                    },
                ),
            ),
            TreeModel::Ask(stage, network) => run_named::<E>(
                db,
                after_answer(stage, network, db.answered(question_statement(stage))),
            ),
            TreeModel::Done(_) => db,
        }
    }
}

/// The effect that the store gives a command is the effect of the text of its statement.
pub proof fn law_commands_do_what_their_text_says(
    db: NamedTables,
    store: TreeStore,
    stage: TreeCommandStage,
    network: Seq<char>,
)
    requires
        db.shows(store),
        stage.well_formed(),
        stage matches TreeCommandStage::EmptyTable(_, k) ==> store.tables[k as int] is Some,
    ensures
        db.executed(command_statement(stage, network)).shows(store.after(stage, network)),
        forall|name: Seq<char>|
            !is_tree_table(name) ==> #[trigger] is_kept(
                db,
                db.executed(command_statement(stage, network)),
                name,
            ),
{
    law_tables_have_their_names();
    law_owner_has_its_table(TreePurpose::Clear, network);
    lemma_texts_differ();
    if let TreeCommandStage::EmptyTable(purpose, k) = stage {
        let sql = command_statement(stage, network).sql;
        law_statements_name_the_table_asked_for(purpose, k, network);
        reveal_strlit("DELETE FROM ");
        assert(sql.take(12) =~= "DELETE FROM "@);
        assert(sql.skip(12) =~= tree_table(k as int));
        assert(sql.len() <= 52 && sql[0] == 'D');
    }
}

proof fn lemma_texts_differ()
    ensures
        "CREATE TABLE IF NOT EXISTS shielded_commitment_tree_meta (
    singleton INTEGER PRIMARY KEY CHECK (singleton = 0),
    network TEXT
)"@[0] == 'C',
        "INSERT INTO shielded_commitment_tree_meta (singleton, network)
 VALUES (0, ?1)
 ON CONFLICT(singleton) DO UPDATE SET network = excluded.network"@[0] == 'I',
        "DELETE FROM shielded_commitment_tree_meta WHERE singleton = 0"@[0] == 'D',
        "DELETE FROM shielded_commitment_tree_meta WHERE singleton = 0"@.len() == 61,
        "SELECT COUNT(*) FROM sqlite_master WHERE type='table' AND name=?1"@[7] == 'C',
        "SELECT EXISTS(SELECT 1 FROM "@[7] == 'E',
        "SELECT EXISTS(SELECT 1 FROM "@.len() == 28,
        " LIMIT 1)"@.len() == 9,
        "commitment_tree_shards"@.len() == 22,
        "commitment_tree_cap"@.len() == 19,
        "commitment_tree_checkpoints"@.len() == 27,
        "commitment_tree_checkpoint_marks_removed"@.len() == 40,
{
    reveal_strlit(
        "CREATE TABLE IF NOT EXISTS shielded_commitment_tree_meta (
    singleton INTEGER PRIMARY KEY CHECK (singleton = 0),
    network TEXT
)",
    );
    reveal_strlit(
        "INSERT INTO shielded_commitment_tree_meta (singleton, network)
 VALUES (0, ?1)
 ON CONFLICT(singleton) DO UPDATE SET network = excluded.network",
    );
    reveal_strlit("DELETE FROM shielded_commitment_tree_meta WHERE singleton = 0");
    reveal_strlit("SELECT COUNT(*) FROM sqlite_master WHERE type='table' AND name=?1");
    reveal_strlit("SELECT EXISTS(SELECT 1 FROM ");
    reveal_strlit(" LIMIT 1)");
    reveal_strlit("commitment_tree_shards");
    reveal_strlit("commitment_tree_cap");
    reveal_strlit("commitment_tree_checkpoints");
    reveal_strlit("commitment_tree_checkpoint_marks_removed");
}

/// The answer that the store gives to a question is the answer to the text of its statement.
pub proof fn law_questions_ask_what_their_text_says(
    db: NamedTables,
    store: TreeStore,
    stage: TreeQuestionStage,
)
    requires
        db.shows(store),
        stage.well_formed(),
        stage matches TreeQuestionStage::TableHasRows(k) ==> store.tables[k as int] is Some,
    ensures
        db.answered(question_statement(stage)) == store.answer(stage),
{
    law_tables_have_their_names();
    law_owner_has_its_table(TreePurpose::Clear, seq![]);
    lemma_texts_differ();
    match stage {
        TreeQuestionStage::TableExists(k) => {
            assert(store.tables[k as int] is Some <==> db.tables.contains_key(tree_table(k as int)));
        },
        TreeQuestionStage::TableToEmptyExists(_, k) => {
            assert(store.tables[k as int] is Some <==> db.tables.contains_key(tree_table(k as int)));
        },
        TreeQuestionStage::TableHasRows(k) => {
            let sql = question_statement(stage).sql;
            assert(sql[7] == "SELECT EXISTS(SELECT 1 FROM "@[7]);
            assert(sql.subrange(28, sql.len() - 9) =~= tree_table(k as int));
            assert(store.tables[k as int] is Some <==> db.tables.contains_key(tree_table(k as int)));
        },
        TreeQuestionStage::MetaExists => {},
    }
}

/// Statements that do what their texts say lead to what the store holds.
proof fn lemma_run_named(db: NamedTables, store: TreeStore, step: TreeModel<()>)
    requires
        db.shows(store),
        step.well_formed(),
        step matches TreeModel::Execute(TreeCommandStage::EmptyTable(_, k), _)
            ==> store.tables[k as int] is Some,
        step matches TreeModel::Ask(TreeQuestionStage::TableHasRows(k), _)
            ==> store.tables[k as int] is Some,
    ensures
        run_named::<()>(db, step).shows(run_on::<()>(store, step)),
        forall|name: Seq<char>|
            !is_tree_table(name) ==> #[trigger] is_kept(db, run_named::<()>(db, step), name),
    decreases steps_left(step),
{
    match step {
        TreeModel::Execute(stage, network) => {
            law_commands_do_what_their_text_says(db, store, stage, network);
            let after = db.executed(command_statement(stage, network));
            let next = after_command::<()>(stage, network);
            lemma_run_named(after, store.after(stage, network), next);
            assert(run_named::<()>(db, step) == run_named::<()>(after, next));
            assert forall|name: Seq<char>| !is_tree_table(name) implies #[trigger] is_kept(
                db,
                run_named::<()>(db, step),
                name,
            ) by {
                assert(is_kept(db, after, name));
                assert(is_kept(after, run_named::<()>(after, next), name));
            }
        },
        TreeModel::ReadOwner(purpose, network) => {
            lemma_run_named(db, store, after_owner(purpose, network, store.owner()));
        },
        TreeModel::Ask(stage, network) => {
            law_questions_ask_what_their_text_says(db, store, stage);
            lemma_run_named(db, store, after_answer(stage, network, store.answer(stage)));
        },
        TreeModel::Done(_) => {},
    }
}

/// Where each statement does what its text says: to clear the tree of the network that owns it
/// leaves the four tables of the tree, as far as they were made, without rows and without an owner;
/// to clear it for any other network changes no table. No other table is touched.
pub proof fn law_clearing_empties_the_four_tables(db: NamedTables, network: Seq<char>)
    ensures
        ({
            let begin = TreeModel::<()>::Execute(
                TreeCommandStage::EnsureMeta(TreePurpose::Clear),
                network,
            );
            let after = run_named::<()>(db, begin);
            let owned = db.owner == Some(Some(network));
            &&& forall|name: Seq<char>|
                owned && is_tree_table(name) ==> #[trigger] is_emptied(db, after, name)
            &&& forall|name: Seq<char>|
                !owned || !is_tree_table(name) ==> #[trigger] is_kept(db, after, name)
            &&& owned ==> after.owner == Some(None::<Seq<char>>)
            &&& !owned ==> after.owner == Some(
                match db.owner {
                    Some(owner) => owner,
                    None => None,
                },
            )
        }),
{
    let begin = TreeModel::<()>::Execute(TreeCommandStage::EnsureMeta(TreePurpose::Clear), network);
    let store = store_of(db);
    let after = run_named::<()>(db, begin);
    let end = cleared(store, network);
    law_tables_have_their_names();
    lemma_run_named(db, store, begin);
    law_cleared_tree(store, network);
    lemma_meta_is_there(store, network);
    let owned = db.owner == Some(Some(network));
    assert forall|name: Seq<char>| owned && is_tree_table(name) implies #[trigger] is_emptied(
        db,
        after,
        name,
    ) by {
        lemma_named_by_place(db, store, after, end, name);
    }
    assert forall|name: Seq<char>| !owned || !is_tree_table(name) implies #[trigger] is_kept(
        db,
        after,
        name,
    ) by {
        if is_tree_table(name) {
            lemma_named_by_place(db, store, after, end, name);
        }
    }
}

/// Where each statement does what its text says: to prepare the tree makes the network its owner. A
/// tree that had another owner, or none, is left without rows in its four tables, as far as they
/// were made; one that the network owned keeps its rows. No other table is touched.
pub proof fn law_preparing_empties_the_four_tables(db: NamedTables, network: Seq<char>)
    ensures
        ({
            let begin = TreeModel::<()>::Execute(
                TreeCommandStage::EnsureMeta(TreePurpose::Prepare),
                network,
            );
            let after = run_named::<()>(db, begin);
            let owned = db.owner == Some(Some(network));
            &&& forall|name: Seq<char>|
                !owned && is_tree_table(name) ==> #[trigger] is_emptied(db, after, name)
            &&& forall|name: Seq<char>|
                owned || !is_tree_table(name) ==> #[trigger] is_kept(db, after, name)
            &&& after.owner == Some(Some(network))
        }),
{
    let begin = TreeModel::<()>::Execute(
        TreeCommandStage::EnsureMeta(TreePurpose::Prepare),
        network,
    );
    let store = store_of(db);
    let after = run_named::<()>(db, begin);
    let end = prepared(store, network);
    law_tables_have_their_names();
    lemma_run_named(db, store, begin);
    law_prepared_tree(store, network);
    let owned = db.owner == Some(Some(network));
    assert forall|name: Seq<char>| !owned && is_tree_table(name) implies #[trigger] is_emptied(
        db,
        after,
        name,
    ) by {
        lemma_named_by_place(db, store, after, end, name);
    }
    assert forall|name: Seq<char>| owned || !is_tree_table(name) implies #[trigger] is_kept(
        db,
        after,
        name,
    ) by {
        if is_tree_table(name) {
            lemma_named_by_place(db, store, after, end, name);
        }
    }
}

/// The tables of the tree and the owner, as named tables hold them.
pub open spec fn store_of(db: NamedTables) -> TreeStore {
    TreeStore {
        tables: Seq::new(
            4,
            |k: int|
                if db.tables.contains_key(tree_table(k)) {
                    Some(db.tables[tree_table(k)])
                } else {
                    None
                },
        ),
        meta: db.owner,
    }
}

/// The owner's table is there once the tree was cleared.
proof fn lemma_meta_is_there(store: TreeStore, network: Seq<char>)
    requires
        store.tables.len() == COMMITMENT_TREE_TABLE_COUNT,
    ensures
        cleared(store, network).meta is Some,
{
    let asked = TreeStore { meta: Some(store.owner()), ..store };
    let read = TreeModel::<()>::ReadOwner(TreePurpose::Clear, network);
    assert(cleared(store, network) == run_on::<()>(asked, read));
    if store.owner() == Some(network) {
        law_cleared_tree(store, network);
        lemma_emptied(asked, TreePurpose::Clear, network, 0);
        let empty = TreeStore { tables: emptied_from(store.tables, 0), ..asked };
        let ask = TreeModel::<()>::Ask(TreeQuestionStage::MetaExists, network);
        let command = TreeModel::<()>::Execute(TreeCommandStage::DropOwner, network);
        let free = TreeStore { meta: Some(None), ..empty };
        assert(run_on::<()>(asked, read) == run_on::<()>(
            asked,
            empty_from(TreePurpose::Clear, network, 0),
        ));
        assert(run_on::<()>(empty, ask) == run_on::<()>(empty, command));
        assert(run_on::<()>(empty, command) == run_on::<()>(free, TreeModel::Done(Ok(()))));
        assert(run_on::<()>(free, TreeModel::Done(Ok(()))) == free);
    } else {
        assert(run_on::<()>(asked, read) == run_on::<()>(asked, TreeModel::Done(Ok(()))));
    }
}

/// A table of the tree is kept or emptied by name where it is by its place.
proof fn lemma_named_by_place(
    before: NamedTables,
    old_store: TreeStore,
    after: NamedTables,
    new_store: TreeStore,
    name: Seq<char>,
)
    requires
        before.shows(old_store),
        after.shows(new_store),
        is_tree_table(name),
    ensures
        new_store.tables == old_store.tables ==> is_kept(before, after, name),
        new_store.tables == emptied_from(old_store.tables, 0) ==> is_emptied(before, after, name),
{
    law_tables_have_their_names();
    let k: int = if name == tree_table(0) {
        0
    } else if name == tree_table(1) {
        1
    } else if name == tree_table(2) {
        2
    } else {
        3
    };
    assert(name == tree_table(k));
    assert(old_store.tables[k] is Some <==> before.tables.contains_key(name));
    assert(new_store.tables[k] is Some <==> after.tables.contains_key(name));
}

/// A step shows the statement to execute, the owner to read or the question to ask, or how it ended.
pub proof fn law_tree_step_shows_what_to_do<E>(step: TreeStep<E>)
    ensures
        match step {
            TreeStep::Execute(command) => step@ == TreeModel::<E>::Execute(command@.0, command@.1),
            TreeStep::ReadOwner(read) => step@ == TreeModel::<E>::ReadOwner(read@.0, read@.1),
            TreeStep::Ask(question) => step@ == TreeModel::<E>::Ask(question@.0, question@.1),
            TreeStep::Done(result) => step@ == TreeModel::<E>::Done(result),
        },
{
}

} // verus!
