use vstd::prelude::*;

use crate::config::{Config, ConfigView, Perm, PermView, Type};
use crate::document::{
    document_of, lemma_array_view, lemma_table_view, parse_document, Item, Node,
};
use crate::errors::ParseError;
use crate::text::{same_ignoring_ascii_case, str_eq, str_eq_ignore_ascii_case, views};

verus! {

/// A permission entry while its fields are read: what has been given so far.
pub struct PermDraft {
    pub all: Option<bool>,
    pub kind: Option<Type>,
    pub commands: Option<Seq<Seq<char>>>,
}

impl PermDraft {
    /// Nothing has been given yet.
    pub open spec fn blank() -> PermDraft {
        PermDraft { all: None, kind: None, commands: None }
    }

    /// The entry, with the default in place of each field that was not given.
    pub open spec fn finish(self) -> PermView {
        PermView {
            all: match self.all {
                Some(all) => all,
                None => false,
            },
            kind: match self.kind {
                Some(kind) => kind,
                None => Type::User,
            },
            commands: match self.commands {
                Some(commands) => commands,
                None => Seq::empty(),
            },
        }
    }
}

/// A configuration while its entries are read.
pub struct ConfigDraft {
    pub timeout: Option<Seq<char>>,
    pub perms: Map<Seq<char>, PermView>,
}

impl ConfigDraft {
    /// Nothing has been given yet.
    pub open spec fn blank() -> ConfigDraft {
        ConfigDraft { timeout: None, perms: Map::empty() }
    }

    /// The configuration, with the default timeout where none was given.
    pub open spec fn finish(self) -> ConfigView {
        ConfigView {
            timeout: match self.timeout {
                Some(timeout) => timeout,
                None => ConfigView::default_timeout(),
            },
            perms: self.perms,
        }
    }
}

/// The namespace that a value of `type` names: `user` or `group`, in
/// letters of either case.
pub open spec fn kind_of(spelling: Seq<char>) -> Option<Type> {
    if same_ignoring_ascii_case(spelling, "user"@) {
        Some(Type::User)
    } else if same_ignoring_ascii_case(spelling, "group"@) {
        Some(Type::Group)
    } else {
        None
    }
}

/// The strings of an array that holds nothing but strings.
pub open spec fn command_list(value: Node) -> Option<Seq<Seq<char>>> {
    match value {
        Node::Array(items) => if forall|i: int| 0 <= i < items.len() ==> #[trigger] items[i] is Str {
            Some(Seq::new(items.len(), |i: int| items[i]->Str_0))
        } else {
            None
        },
        _ => None,
    }
}

/// Whether a field of a permission table has one of the accepted names.
pub open spec fn known_field(key: Seq<char>) -> bool {
    key == "all"@ || key == "type"@ || key == "ptype"@ || key == "commands"@
}

/// Reads one field of a permission table into the draft.
pub open spec fn field_step(draft: PermDraft, key: Seq<char>, value: Node) -> Result<
    PermDraft,
    ParseError,
> {
    if key == "all"@ {
        if draft.all is Some {
            Err(ParseError::DuplicateKey)
        } else {
            match value {
                Node::Bool(all) => Ok(PermDraft { all: Some(all), ..draft }),
                _ => Err(ParseError::InvalidValue),
            }
        }
    } else if key == "type"@ || key == "ptype"@ {
        if draft.kind is Some {
            Err(ParseError::DuplicateKey)
        } else {
            match value {
                Node::Str(spelling) => match kind_of(spelling) {
                    Some(kind) => Ok(PermDraft { kind: Some(kind), ..draft }),
                    None => Err(ParseError::InvalidValue),
                },
                _ => Err(ParseError::InvalidValue),
            }
        }
    } else if key == "commands"@ {
        if draft.commands is Some {
            Err(ParseError::DuplicateKey)
        } else {
            match command_list(value) {
                Some(commands) => Ok(PermDraft { commands: Some(commands), ..draft }),
                None => Err(ParseError::InvalidValue),
            }
        }
    } else {
        Err(ParseError::UnknownField)
    }
}

/// Reads the first `n` fields of a permission table, in their order. The
/// first field that cannot be read decides the error.
pub open spec fn fields_upto(fields: Seq<(Seq<char>, Node)>, n: int) -> Result<
    PermDraft,
    ParseError,
>
    decreases n,
{
    if n <= 0 {
        Ok(PermDraft::blank())
    } else {
        match fields_upto(fields, n - 1) {
            Ok(draft) => field_step(draft, fields[n - 1].0, fields[n - 1].1),
            Err(e) => Err(e),
        }
    }
}

/// The permission entry that a value of a document stands for.
pub open spec fn perm_of(value: Node) -> Result<PermView, ParseError> {
    match value {
        Node::Table(fields) => match fields_upto(fields, fields.len() as int) {
            Ok(draft) => Ok(draft.finish()),
            Err(e) => Err(e),
        },
        _ => Err(ParseError::InvalidValue),
    }
}

/// Reads one entry of the top-level table into the draft: `timeout` is the
/// advisory timeout, every other key is a principal's name.
pub open spec fn entry_step(draft: ConfigDraft, key: Seq<char>, value: Node) -> Result<
    ConfigDraft,
    ParseError,
> {
    if key == "timeout"@ {
        if draft.timeout is Some {
            Err(ParseError::DuplicateKey)
        } else {
            match value {
                Node::Str(timeout) => Ok(ConfigDraft { timeout: Some(timeout), ..draft }),
                _ => Err(ParseError::InvalidValue),
            }
        }
    } else if draft.perms.contains_key(key) {
        Err(ParseError::DuplicateKey)
    } else {
        match perm_of(value) {
            Ok(perm) => Ok(ConfigDraft { perms: draft.perms.insert(key, perm), ..draft }),
            Err(e) => Err(e),
        }
    }
}

/// Reads the first `n` entries of the top-level table, in their order. The
/// first entry that cannot be read decides the error.
pub open spec fn entries_upto(entries: Seq<(Seq<char>, Node)>, n: int) -> Result<
    ConfigDraft,
    ParseError,
>
    decreases n,
{
    if n <= 0 {
        Ok(ConfigDraft::blank())
    } else {
        match entries_upto(entries, n - 1) {
            Ok(draft) => entry_step(draft, entries[n - 1].0, entries[n - 1].1),
            Err(e) => Err(e),
        }
    }
}

/// The configuration that a document stands for.
pub open spec fn config_of(doc: Node) -> Result<ConfigView, ParseError> {
    match doc {
        Node::Table(entries) => match entries_upto(entries, entries.len() as int) {
            Ok(draft) => Ok(draft.finish()),
            Err(e) => Err(e),
        },
        _ => Err(ParseError::InvalidValue),
    }
}

/// The configuration that a text stands for.
pub open spec fn config_of_text(text: Seq<char>) -> Result<ConfigView, ParseError> {
    match document_of(text) {
        Ok(doc) => config_of(doc),
        Err(e) => Err(e),
    }
}

/// The namespace that a value of `type` names.
pub fn kind_from(spelling: &str) -> (r: Option<Type>)
    ensures
        r == kind_of(spelling@),
{
    if str_eq_ignore_ascii_case(spelling, "user") {
        Some(Type::User)
    } else if str_eq_ignore_ascii_case(spelling, "group") {
        Some(Type::Group)
    } else {
        None
    }
}

/// The command list that a value of `commands` holds.
pub fn commands_from(value: &Item) -> (r: Option<Vec<String>>)
    ensures
        match r {
            Some(commands) => command_list(value@) == Some(views(commands@)),
            None => command_list(value@) is None,
        },
{
    match value {
        Item::Array(items) => {
            let ghost nodes = value@->Array_0;
            proof {
                lemma_array_view(*value);
            }
            let mut commands: Vec<String> = Vec::new();
            let mut i: usize = 0;
            while i < items.len()
                invariant
                    i <= items.len(),
                    value@ == Node::Array(nodes),
                    nodes.len() == items.len(),
                    forall|j: int| 0 <= j < items.len() ==> nodes[j] == #[trigger] items[j]@,
                    commands.len() == i,
                    forall|j: int| 0 <= j < i ==> #[trigger] nodes[j] is Str,
                    forall|j: int| 0 <= j < i ==> nodes[j]->Str_0 == #[trigger] commands[j]@,
                decreases items.len() - i,
            {
                assert(nodes[i as int] == items[i as int]@);
                match &items[i] {
                    Item::Str(command) => {
                        commands.push(command.clone());
                    },
                    _ => {
                        return None;
                    },
                }
                i += 1;
            }
            assert(views(commands@) =~= Seq::new(nodes.len(), |i: int| nodes[i]->Str_0));
            Some(commands)
        },
        _ => None,
    }
}

impl Perm {
    /// Reads a permission entry from the table that stands for it.
    pub fn from_document(value: &Item) -> (r: Result<Perm, ParseError>)
        ensures
            match r {
                Ok(perm) => perm_of(value@) == Ok::<PermView, ParseError>(perm@),
                Err(e) => perm_of(value@) == Err::<PermView, ParseError>(e),
            },
    {
        match value {
            Item::Table(entries) => {
                let ghost fields = value@->Table_0;
                proof {
                    lemma_table_view(*value);
                }
                let mut all: Option<bool> = None;
                let mut kind: Option<Type> = None;
                let mut commands: Option<Vec<String>> = None;
                let mut i: usize = 0;
                while i < entries.len()
                    invariant
                        i <= entries.len(),
                        value@ == Node::Table(fields),
                        fields.len() == entries.len(),
                        forall|j: int|
                            0 <= j < entries.len() ==> fields[j] == (
                                (#[trigger] entries[j]).0@,
                                entries[j].1@,
                            ),
                        fields_upto(fields, i as int) == Ok::<PermDraft, ParseError>(
                            PermDraft {
                                all,
                                kind,
                                commands: match commands {
                                    Some(list) => Some(views(list@)),
                                    None => None,
                                },
                            },
                        ),
                    decreases entries.len() - i,
                {
                    let key = entries[i].0.as_str();
                    let field = &entries[i].1;
                    assert(fields[i as int] == (key@, field@));
                    let ghost draft = fields_upto(fields, i as int)->Ok_0;
                    assert(fields_upto(fields, i + 1) == field_step(draft, key@, field@));
                    proof {
                        if fields_upto(fields, i + 1) is Err {
                            lemma_error_stays(fields, i + 1, entries.len() as int);
                        }
                    }
                    if str_eq(key, "all") {
                        if all.is_some() {
                            return Err(ParseError::DuplicateKey);
                        }
                        match field {
                            Item::Bool(value) => {
                                all = Some(*value);
                            },
                            _ => {
                                return Err(ParseError::InvalidValue);
                            },
                        }
                    } else if str_eq(key, "type") || str_eq(key, "ptype") {
                        if kind.is_some() {
                            return Err(ParseError::DuplicateKey);
                        }
                        let named = match field {
                            Item::Str(spelling) => kind_from(spelling.as_str()),
                            _ => None,
                        };
                        match named {
                            Some(value) => {
                                kind = Some(value);
                            },
                            None => {
                                return Err(ParseError::InvalidValue);
                            },
                        }
                    } else if str_eq(key, "commands") {
                        if commands.is_some() {
                            return Err(ParseError::DuplicateKey);
                        }
                        match commands_from(field) {
                            Some(list) => {
                                commands = Some(list);
                            },
                            None => {
                                return Err(ParseError::InvalidValue);
                            },
                        }
                    } else {
                        return Err(ParseError::UnknownField);
                    }
                    i += 1;
                }
                let perm = Perm {
                    all: match all {
                        Some(value) => value,
                        None => false,
                    },
                    ptype: match kind {
                        Some(value) => value,
                        None => Type::User,
                    },
                    commands: match commands {
                        Some(list) => list,
                        None => Vec::new(),
                    },
                };
                assert(perm@.commands =~= fields_upto(
                    fields,
                    fields.len() as int,
                )->Ok_0.finish().commands);
                Ok(perm)
            },
            _ => Err(ParseError::InvalidValue),
        }
    }
}

/// Once a field cannot be read, the fields after it change nothing.
proof fn lemma_error_stays(fields: Seq<(Seq<char>, Node)>, at: int, n: int)
    requires
        at <= n,
        fields_upto(fields, at) is Err,
    ensures
        fields_upto(fields, n) == fields_upto(fields, at),
    decreases n - at,
{
    if at < n {
        lemma_error_stays(fields, at, n - 1);
    }
}

/// Once an entry cannot be read, the entries after it change nothing.
proof fn lemma_entry_error_stays(entries: Seq<(Seq<char>, Node)>, at: int, n: int)
    requires
        at <= n,
        entries_upto(entries, at) is Err,
    ensures
        entries_upto(entries, n) == entries_upto(entries, at),
    decreases n - at,
{
    if at < n {
        lemma_entry_error_stays(entries, at, n - 1);
    }
}

impl Config {
    /// Reads a configuration from the document that stands for it.
    pub fn from_document(doc: &Item) -> (r: Result<Config, ParseError>)
        ensures
            match r {
                Ok(config) => config_of(doc@) == Ok::<ConfigView, ParseError>(config@),
                Err(e) => config_of(doc@) == Err::<ConfigView, ParseError>(e),
            },
    {
        match doc {
            Item::Table(items) => {
                let ghost entries = doc@->Table_0;
                proof {
                    lemma_table_view(*doc);
                }
                let mut config = Config::default();
                let mut timeout: Option<String> = None;
                let mut i: usize = 0;
                while i < items.len()
                    invariant
                        i <= items.len(),
                        doc@ == Node::Table(entries),
                        entries.len() == items.len(),
                        forall|j: int|
                            0 <= j < items.len() ==> entries[j] == (
                                (#[trigger] items[j]).0@,
                                items[j].1@,
                            ),
                        entries_upto(entries, i as int) == Ok::<ConfigDraft, ParseError>(
                            ConfigDraft {
                                timeout: match timeout {
                                    Some(text) => Some(text@),
                                    None => None,
                                },
                                perms: config@.perms,
                            },
                        ),
                        config@.timeout == ConfigView::default_timeout(),
                    decreases items.len() - i,
                {
                    let key = items[i].0.as_str();
                    let value = &items[i].1;
                    assert(entries[i as int] == (key@, value@));
                    let ghost draft = entries_upto(entries, i as int)->Ok_0;
                    assert(entries_upto(entries, i + 1) == entry_step(draft, key@, value@));
                    proof {
                        if entries_upto(entries, i + 1) is Err {
                            lemma_entry_error_stays(entries, i + 1, items.len() as int);
                        }
                    }
                    if str_eq(key, "timeout") {
                        if timeout.is_some() {
                            return Err(ParseError::DuplicateKey);
                        }
                        match value {
                            Item::Str(text) => {
                                timeout = Some(text.clone());
                            },
                            _ => {
                                return Err(ParseError::InvalidValue);
                            },
                        }
                    } else if config.contains(key) {
                        return Err(ParseError::DuplicateKey);
                    } else {
                        match Perm::from_document(value) {
                            Ok(perm) => {
                                config.insert(items[i].0.clone(), perm);
                            },
                            Err(e) => {
                                return Err(e);
                            },
                        }
                    }
                    i += 1;
                }
                match timeout {
                    Some(text) => {
                        config.set_timeout(text);
                    },
                    None => {},
                }
                Ok(config)
            },
            _ => Err(ParseError::InvalidValue),
        }
    }

    /// Reads a configuration from its text.
    pub fn parse(text: &str) -> (r: Result<Config, ParseError>)
        ensures
            match r {
                Ok(config) => config_of_text(text@) == Ok::<ConfigView, ParseError>(config@),
                Err(e) => config_of_text(text@) == Err::<ConfigView, ParseError>(e),
            },
    {
        match parse_document(text) {
            Ok(doc) => Config::from_document(&doc),
            Err(e) => Err(e),
        }
    }
}

/// A document without entries stands for the configuration without
/// principals, with the default timeout, and so does every text that
/// stands for such a document.
pub proof fn law_empty_document_is_default()
    ensures
        config_of(Node::Table(Seq::empty())) == Ok::<ConfigView, ParseError>(ConfigView::empty()),
        forall|text: Seq<char>|
            document_of(text) == Ok::<Node, ParseError>(Node::Table(Seq::empty()))
                ==> #[trigger] config_of_text(text) == Ok::<ConfigView, ParseError>(
                ConfigView::empty(),
            ),
{
}

/// Of what the first `n` entries give, the timeout is missing if none of
/// them is called `timeout`, and the table is empty if none of them is a
/// table.
proof fn lemma_entries_leave_defaults(entries: Seq<(Seq<char>, Node)>, n: int)
    requires
        0 <= n <= entries.len(),
    ensures
        entries_upto(entries, n) matches Ok(draft) ==> {
            &&& (forall|i: int| 0 <= i < n ==> (#[trigger] entries[i]).0 != "timeout"@)
                ==> draft.timeout is None
            &&& (forall|i: int| 0 <= i < n ==> !((#[trigger] entries[i]).1 is Table))
                ==> draft.perms == Map::<Seq<char>, PermView>::empty()
        },
    decreases n,
{
    if n > 0 {
        lemma_entries_leave_defaults(entries, n - 1);
        if entries_upto(entries, n) is Ok {
            let draft = entries_upto(entries, n - 1)->Ok_0;
            if forall|i: int| 0 <= i < n ==> (#[trigger] entries[i]).0 != "timeout"@ {
                assert(entries[n - 1].0 != "timeout"@);
            }
            if forall|i: int| 0 <= i < n ==> !((#[trigger] entries[i]).1 is Table) {
                assert(!(entries[n - 1].1 is Table));
            }
        }
    }
}

/// A document in which nothing is called `timeout` has the default
/// timeout, and one without tables has no principals.
pub proof fn law_missing_parts_are_defaults(entries: Seq<(Seq<char>, Node)>)
    ensures
        config_of(Node::Table(entries)) matches Ok(config) ==> {
            &&& (forall|i: int| 0 <= i < entries.len() ==> (#[trigger] entries[i]).0 != "timeout"@)
                ==> config.timeout == ConfigView::default_timeout()
            &&& (forall|i: int| 0 <= i < entries.len() ==> !((#[trigger] entries[i]).1 is Table))
                ==> config.perms == Map::<Seq<char>, PermView>::empty()
        },
{
    lemma_entries_leave_defaults(entries, entries.len() as int);
}

/// A permission table with a field of another name than `all`, `type`,
/// `ptype` and `commands` stands for no entry.
pub proof fn law_unknown_field_is_rejected(fields: Seq<(Seq<char>, Node)>, at: int)
    requires
        0 <= at < fields.len(),
        !known_field(fields[at].0),
    ensures
        perm_of(Node::Table(fields)) is Err,
{
    lemma_field_error(fields, at);
    lemma_error_stays(fields, at + 1, fields.len() as int);
}

proof fn lemma_field_error(fields: Seq<(Seq<char>, Node)>, at: int)
    requires
        0 <= at < fields.len(),
        !known_field(fields[at].0),
    ensures
        fields_upto(fields, at + 1) is Err,
{
}

/// A document in which the table of some principal has a field of another
/// name than `all`, `type`, `ptype` and `commands` stands for no
/// configuration, and neither does a text that stands for such a document.
pub proof fn law_unknown_field_fails_the_document(
    entries: Seq<(Seq<char>, Node)>,
    principal: int,
    field: int,
)
    requires
        0 <= principal < entries.len(),
        entries[principal].0 != "timeout"@,
        entries[principal].1 is Table,
        0 <= field < entries[principal].1->Table_0.len(),
        !known_field(entries[principal].1->Table_0[field].0),
    ensures
        config_of(Node::Table(entries)) is Err,
        forall|text: Seq<char>|
            document_of(text) == Ok::<Node, ParseError>(Node::Table(entries))
                ==> #[trigger] config_of_text(text) is Err,
{
    law_unknown_field_is_rejected(entries[principal].1->Table_0, field);
    assert(entries_upto(entries, principal + 1) is Err);
    lemma_entry_error_stays(entries, principal + 1, entries.len() as int);
}

} // verus!
