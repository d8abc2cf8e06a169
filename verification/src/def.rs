//! Core data model: statement kinds, parsed statements, fragments, the
//! per-file parse state, and the text-replacement rule table entries.

use vstd::prelude::*;

verus! {

use vstd::string::StringExecFns;

/// Kind of a statement-class element.
#[derive(Clone, Copy, PartialEq, Eq, Structural, Debug)]
pub enum Mode {
    Statement,
    Select,
    Insert,
    Update,
    Delete,
    SelectKey,
    SqlPart,
}

/// Element names that open or close a statement-class block (the
/// fragment-definition element `sql` among them).
pub open spec fn spec_match_statement(e: Seq<char>) -> bool {
    e == "statement"@ || e == "select"@ || e == "insert"@ || e == "update"@ || e == "delete"@
        || e == "sql"@
}

/// The `Mode` that a statement-class element name denotes.
pub open spec fn spec_mode_of(e: Seq<char>) -> Mode {
    if e == "statement"@ {
        Mode::Statement
    } else if e == "select"@ {
        Mode::Select
    } else if e == "insert"@ {
        Mode::Insert
    } else if e == "update"@ {
        Mode::Update
    } else if e == "delete"@ {
        Mode::Delete
    } else if e == "selectkey"@ {
        Mode::SelectKey
    } else {
        Mode::SqlPart
    }
}

impl Mode {
    /// Maps a statement-class element name (or `selectkey`) to its kind.
    pub fn from(name: &str) -> (r: Mode)
        requires
            spec_match_statement(name@) || name@ == "selectkey"@,
        ensures
            r == spec_mode_of(name@),
    {
        if crate::text::str_eq_str(name, "statement") {
            Mode::Statement
        } else if crate::text::str_eq_str(name, "select") {
            Mode::Select
        } else if crate::text::str_eq_str(name, "insert") {
            Mode::Insert
        } else if crate::text::str_eq_str(name, "update") {
            Mode::Update
        } else if crate::text::str_eq_str(name, "delete") {
            Mode::Delete
        } else if crate::text::str_eq_str(name, "selectkey") {
            Mode::SelectKey
        } else {
            Mode::SqlPart
        }
    }
}

/// View of a `SqlKey`.
pub ghost struct KeyV {
    pub key: Seq<char>,
    pub sql: Seq<char>,
}

/// A generated-key sub-statement: its id and its text.
pub struct SqlKey {
    pub key: String,
    pub sql: String,
}

impl View for SqlKey {
    type V = KeyV;

    open spec fn view(&self) -> KeyV {
        KeyV { key: self.key@, sql: self.sql@ }
    }
}

impl DeepView for SqlKey {
    type V = KeyV;

    open spec fn deep_view(&self) -> KeyV {
        self.view()
    }
}

impl SqlKey {
    /// A key with empty id and empty text.
    pub fn empty() -> (r: SqlKey)
        ensures
            r@.key == Seq::<char>::empty(),
            r@.sql == Seq::<char>::empty(),
    {
        SqlKey { key: String::new(), sql: String::new() }
    }
}

/// View of a `SqlStatement`.
pub ghost struct StmtV {
    pub mode: Mode,
    pub id: Seq<char>,
    pub sql: Seq<char>,
    pub has_include: bool,
    pub has_sql_key: bool,
    pub sql_key: KeyV,
}

/// One extracted statement: its id, its raw text (placeholder tokens
/// still inside), and its optional generated-key sub-statement.
pub struct SqlStatement {
    pub mode: Mode,
    pub id: String,
    pub sql: String,
    pub has_include: bool,
    pub has_sql_key: bool,
    pub sql_key: SqlKey,
}

impl View for SqlStatement {
    type V = StmtV;

    open spec fn view(&self) -> StmtV {
        StmtV {
            mode: self.mode,
            id: self.id@,
            sql: self.sql@,
            has_include: self.has_include,
            has_sql_key: self.has_sql_key,
            sql_key: self.sql_key@,
        }
    }
}

impl DeepView for SqlStatement {
    type V = StmtV;

    open spec fn deep_view(&self) -> StmtV {
        self.view()
    }
}

impl SqlStatement {
    /// Builds a statement from its parts.
    pub fn new(
        mode: Mode,
        id: String,
        sql: String,
        has_include: bool,
        has_sql_key: bool,
        sql_key: SqlKey,
    ) -> (r: SqlStatement)
        ensures
            r@ == (StmtV {
                mode,
                id: id@,
                sql: sql@,
                has_include,
                has_sql_key,
                sql_key: sql_key@,
            }),
    {
        SqlStatement { mode, id, sql, has_include, has_sql_key, sql_key }
    }
}

/// View of a `Fragment`.
pub ghost struct FragV {
    pub id: Seq<char>,
    pub text: Seq<char>,
}

/// A named, reusable SQL snippet, referenced by id from statements or
/// from other fragments.
pub struct Fragment {
    pub id: String,
    pub text: String,
}

impl View for Fragment {
    type V = FragV;

    open spec fn view(&self) -> FragV {
        FragV { id: self.id@, text: self.text@ }
    }
}

impl DeepView for Fragment {
    type V = FragV;

    open spec fn deep_view(&self) -> FragV {
        self.view()
    }
}

/// View of a `LoopDef`.
pub ghost struct LoopV {
    pub suffix: Seq<char>,
    pub separator: Seq<char>,
}

/// Literal wrapping tokens of the loop/trim elements currently open.
pub struct LoopDef {
    pub suffix: String,
    pub separator: String,
}

impl View for LoopDef {
    type V = LoopV;

    open spec fn view(&self) -> LoopV {
        LoopV { suffix: self.suffix@, separator: self.separator@ }
    }
}

impl DeepView for LoopDef {
    type V = LoopV;

    open spec fn deep_view(&self) -> LoopV {
        self.view()
    }
}

impl LoopDef {
    /// Clears both stored literals.
    pub fn reset(&mut self)
        ensures
            final(self)@.suffix == Seq::<char>::empty(),
            final(self)@.separator == Seq::<char>::empty(),
    {
        self.suffix = String::new();
        self.separator = String::new();
    }
}

/// One step of the normalization pipeline: a pattern and the text that
/// replaces what the pattern matches.
pub ghost struct RuleV {
    pub regex: Seq<char>,
    pub target: Seq<char>,
}

/// A normalization rule: a regular-expression pattern (kept as text)
/// and its replacement.
pub struct RegexReplacement {
    pub regex: String,
    pub target: String,
}

impl View for RegexReplacement {
    type V = RuleV;

    open spec fn view(&self) -> RuleV {
        RuleV { regex: self.regex@, target: self.target@ }
    }
}

impl DeepView for RegexReplacement {
    type V = RuleV;

    open spec fn deep_view(&self) -> RuleV {
        self.view()
    }
}

impl RegexReplacement {
    /// Builds a rule from a pattern and a replacement.
    pub fn new(regex: &str, target: &str) -> (r: RegexReplacement)
        ensures
            r@.regex == regex@,
            r@.target == target@,
    {
        RegexReplacement { regex: regex.to_owned(), target: target.to_owned() }
    }
}

/// View of the per-file parse state.
pub ghost struct StateV {
    pub in_statement: bool,
    pub in_sql_key: bool,
    pub in_loop: bool,
    pub has_include: bool,
    pub has_sql_key: bool,
    pub current_id: Seq<char>,
    pub current_key_id: Seq<char>,
    pub namespace: Seq<char>,
    pub loop_def: LoopV,
    pub sql_builder: Seq<char>,
    pub key_sql_builder: Seq<char>,
    pub statements: Seq<StmtV>,
    pub fragments: Seq<FragV>,
    pub global_fragments: Seq<FragV>,
    pub filename: Seq<char>,
}

/// Mutable per-file parse state, discarded when the file is done.
pub struct XmlParsedState {
    pub in_statement: bool,
    pub in_sql_key: bool,
    pub in_loop: bool,
    pub has_include: bool,
    pub has_sql_key: bool,
    pub current_id: String,
    pub current_key_id: String,
    pub namespace: String,
    pub loop_def: LoopDef,
    pub sql_builder: String,
    pub key_sql_builder: String,
    pub statements: Vec<SqlStatement>,
    pub fragments: Vec<Fragment>,
    pub global_fragments: Vec<Fragment>,
    pub filename: String,
}

impl View for XmlParsedState {
    type V = StateV;

    open spec fn view(&self) -> StateV {
        StateV {
            in_statement: self.in_statement,
            in_sql_key: self.in_sql_key,
            in_loop: self.in_loop,
            has_include: self.has_include,
            has_sql_key: self.has_sql_key,
            current_id: self.current_id@,
            current_key_id: self.current_key_id@,
            namespace: self.namespace@,
            loop_def: self.loop_def@,
            sql_builder: self.sql_builder@,
            key_sql_builder: self.key_sql_builder@,
            statements: self.statements.deep_view(),
            fragments: self.fragments.deep_view(),
            global_fragments: self.global_fragments.deep_view(),
            filename: self.filename@,
        }
    }
}

/// The parse state that `spec_reset` yields from a given state.
pub open spec fn spec_reset(st: StateV) -> StateV {
    StateV {
        in_statement: false,
        in_sql_key: false,
        in_loop: false,
        has_include: false,
        has_sql_key: false,
        current_id: Seq::<char>::empty(),
        current_key_id: Seq::<char>::empty(),
        loop_def: LoopV { suffix: Seq::<char>::empty(), separator: Seq::<char>::empty() },
        sql_builder: Seq::<char>::empty(),
        key_sql_builder: Seq::<char>::empty(),
        ..st
    }
}

impl XmlParsedState {
    /// A fresh parse state: all flags cleared, all accumulators empty.
    pub fn new() -> (r: XmlParsedState)
        ensures
            r@ == (StateV {
                in_statement: false,
                in_sql_key: false,
                in_loop: false,
                has_include: false,
                has_sql_key: false,
                current_id: Seq::<char>::empty(),
                current_key_id: Seq::<char>::empty(),
                namespace: Seq::<char>::empty(),
                loop_def: LoopV {
                    suffix: Seq::<char>::empty(),
                    separator: Seq::<char>::empty(),
                },
                sql_builder: Seq::<char>::empty(),
                key_sql_builder: Seq::<char>::empty(),
                statements: Seq::<StmtV>::empty(),
                fragments: Seq::<FragV>::empty(),
                global_fragments: Seq::<FragV>::empty(),
                filename: Seq::<char>::empty(),
            }),
    {
        let r = XmlParsedState {
            in_statement: false,
            in_sql_key: false,
            in_loop: false,
            has_include: false,
            has_sql_key: false,
            current_id: String::new(),
            current_key_id: String::new(),
            namespace: String::new(),
            loop_def: LoopDef { suffix: String::new(), separator: String::new() },
            sql_builder: String::new(),
            key_sql_builder: String::new(),
            statements: Vec::new(),
            fragments: Vec::new(),
            global_fragments: Vec::new(),
            filename: String::new(),
        };
        proof {
            assert(r.statements.deep_view() =~= Seq::<StmtV>::empty());
            assert(r.fragments.deep_view() =~= Seq::<FragV>::empty());
            assert(r.global_fragments.deep_view() =~= Seq::<FragV>::empty());
        }
        r
    }

    /// Clears the transient fields after a statement or fragment closes;
    /// collected statements, fragments, namespace and filename stay.
    pub fn reset(&mut self)
        ensures
            final(self)@ == spec_reset(old(self)@),
    {
        self.in_statement = false;
        self.in_sql_key = false;
        self.in_loop = false;
        self.has_include = false;
        self.has_sql_key = false;
        self.current_id = String::new();
        self.current_key_id = String::new();
        self.loop_def = LoopDef { suffix: String::new(), separator: String::new() };
        self.sql_builder = String::new();
        self.key_sql_builder = String::new();
    }
}

} // verus!
