//! Directives: what a test case asks for, read from its name, its arguments
//! and its lines.

use crate::text::{
    chars_of, head_of, join, joined, lines, lines_of, split_at_space, tail_of, texts,
};
use crate::trace::{is_label, known_label};
use crate::wait::{Wait, WaitView};
use vstd::prelude::*;

verus! {

/// The arguments of a directive, as mathematics: the keys in the order given,
/// and the values of each.
pub struct ArgsView {
    pub keys: Seq<Seq<char>>,
    pub values: Seq<Seq<Seq<char>>>,
}

/// Where a key stands first among the keys; their number where it does not
/// stand among them.
pub open spec fn place(keys: Seq<Seq<char>>, key: Seq<char>) -> nat
    decreases keys.len(),
{
    if keys.len() == 0 || keys[0] == key {
        0
    } else {
        1 + place(keys.skip(1), key)
    }
}

/// A key stands first where it is found with no equal before it.
pub proof fn place_is_first(keys: Seq<Seq<char>>, key: Seq<char>, n: int)
    requires
        0 <= n <= keys.len(),
        forall|k: int| 0 <= k < n ==> keys[k] != key,
        n < keys.len() ==> keys[n] == key,
    ensures
        place(keys, key) == n,
    decreases n,
{
    if n > 0 {
        place_is_first(keys.skip(1), key, n - 1);
    }
}

impl ArgsView {
    /// The values of a key; `None` where the key is not given.
    pub open spec fn get(self, key: Seq<char>) -> Option<Seq<Seq<char>>> {
        if place(self.keys, key) < self.keys.len() {
            Some(self.values[place(self.keys, key) as int])
        } else {
            None
        }
    }

    /// The arguments without a key.
    pub open spec fn without(self, key: Seq<char>) -> ArgsView {
        if place(self.keys, key) < self.keys.len() {
            ArgsView {
                keys: self.keys.remove(place(self.keys, key) as int),
                values: self.values.remove(place(self.keys, key) as int),
            }
        } else {
            self
        }
    }
}

/// One argument: its key and its values.
#[derive(Debug)]
struct Arg {
    key: String,
    values: Vec<String>,
}

/// The arguments of a directive.
#[derive(Debug)]
pub struct Args {
    given: Vec<Arg>,
}

impl View for Args {
    type V = ArgsView;

    closed spec fn view(&self) -> ArgsView {
        ArgsView {
            keys: self.given@.map_values(|a: Arg| a.key@),
            values: self.given@.map_values(|a: Arg| texts(a.values@)),
        }
    }
}

impl Args {
    /// No arguments.
    pub fn new() -> (args: Args)
        ensures
            args@ == (ArgsView { keys: Seq::empty(), values: Seq::empty() }),
    {
        let args = Args { given: Vec::new() };
        assert(args@.keys =~= Seq::<Seq<char>>::empty());
        assert(args@.values =~= Seq::<Seq<Seq<char>>>::empty());
        args
    }

    /// One more argument, behind those given before.
    pub fn push(&mut self, key: String, values: Vec<String>)
        ensures
            final(self)@ == (ArgsView {
                keys: old(self)@.keys.push(key@),
                values: old(self)@.values.push(texts(values@)),
            }),
    {
        self.given.push(Arg { key, values });
        assert(self@.keys =~= old(self)@.keys.push(key@));
        assert(self@.values =~= old(self)@.values.push(texts(values@)));
    }

    /// Whether no argument is left.
    pub fn is_empty(&self) -> (empty: bool)
        ensures
            empty == (self@.keys.len() == 0),
    {
        self.given.len() == 0
    }

    /// How many arguments are left.
    pub fn len(&self) -> (n: usize)
        ensures
            n == self@.keys.len(),
    {
        self.given.len()
    }

    /// Takes an argument out: its values, or `None` where the key is not
    /// given.
    pub fn remove(&mut self, key: &str) -> (r: Option<Vec<String>>)
        ensures
            final(self)@ == old(self)@.without(key@),
            match r {
                Some(values) => old(self)@.get(key@) == Some(texts(values@)),
                None => old(self)@.get(key@) is None,
            },
    {
        let wanted = key.to_owned();
        let mut i: usize = 0;
        while i < self.given.len()
            invariant
                i <= self.given.len(),
                *self == *old(self),
                wanted@ == key@,
                forall|k: int| 0 <= k < i ==> self@.keys[k] != key@,
            decreases self.given.len() - i,
        {
            if self.given[i].key == wanted {
                proof {
                    place_is_first(self@.keys, key@, i as int);
                }
                let arg = self.given.remove(i);
                proof {
                    assert(self@.keys =~= old(self)@.keys.remove(i as int));
                    assert(self@.values =~= old(self)@.values.remove(i as int));
                }
                return Some(arg.values);
            }
            i += 1;
        }
        proof {
            place_is_first(self@.keys, key@, self.given.len() as int);
        }
        None
    }
}

/// What is wrong with a directive.
#[derive(Debug, PartialEq, Eq)]
pub enum UsageError {
    /// The directive is neither `send` nor `until`.
    UnknownDirective,
    /// The argument `conn` names no connection.
    MissingConnName,
    /// The directive has arguments that it does not know.
    ExtraArguments,
    /// An `until` awaits what no entry can bear as its label.
    UnknownTarget,
    /// A line to send begins with no known kind of message.
    UnknownMessage,
}

/// What a directive asks for, as mathematics.
pub enum PlanView {
    Send { conn: Option<Seq<char>>, lines: Seq<Seq<char>> },
    Until { conn: Option<Seq<char>>, wait: WaitView },
}

/// What a directive asks for.
#[derive(Debug)]
pub enum Plan {
    /// Send each line's message on the connection named, the default one
    /// where none is named.
    Send { conn: Option<String>, lines: Vec<String> },
    /// Wait on the connection named, the default one where none is named.
    Until { conn: Option<String>, wait: Wait },
}

impl View for Plan {
    type V = PlanView;

    open spec fn view(&self) -> PlanView {
        match *self {
            Plan::Send { conn, lines } => PlanView::Send {
                conn: conn.deep_view(),
                lines: texts(lines@),
            },
            Plan::Until { conn, wait } => PlanView::Until { conn: conn.deep_view(), wait: wait@ },
        }
    }
}

/// The connection that the arguments name: the first value of `conn`. An
/// error where `conn` is given without a value.
pub open spec fn conn_named(args: ArgsView) -> Result<Option<Seq<char>>, UsageError> {
    match args.get("conn"@) {
        None => Ok(None),
        Some(values) => if values.len() == 0 {
            Err(UsageError::MissingConnName)
        } else {
            Ok(Some(values[0]))
        },
    }
}

/// The codes of the error fields that an `until` shows: none with
/// `no_error_fields`; else the characters of `err_field_typs`; else code,
/// severity and message.
pub open spec fn filter_asked(args: ArgsView) -> Seq<char> {
    if args.get("no_error_fields"@) is Some {
        Seq::empty()
    } else {
        match args.get("err_field_typs"@) {
            Some(values) => joined(values, Seq::empty()),
            None => seq!['C', 'S', 'M'],
        }
    }
}

/// The arguments that an `until` leaves once it has taken those it knows.
/// With `no_error_fields`, `err_field_typs` is not looked at, and stays.
pub open spec fn leftover(args: ArgsView) -> ArgsView {
    let rest = if args.get("no_error_fields"@) is Some {
        args.without("no_error_fields"@)
    } else {
        args.without("no_error_fields"@).without("err_field_typs"@)
    };
    rest.without("ignore"@)
}

/// The labels that an `until` keeps out of its trace.
pub open spec fn ignore_asked(args: ArgsView) -> Seq<Seq<char>> {
    let rest = if args.get("no_error_fields"@) is Some {
        args.without("no_error_fields"@)
    } else {
        args.without("no_error_fields"@).without("err_field_typs"@)
    };
    match rest.get("ignore"@) {
        Some(values) => values,
        None => Seq::empty(),
    }
}

/// Every line is a label that an entry can bear.
pub open spec fn all_labels(lines: Seq<Seq<char>>) -> bool {
    forall|i: int| 0 <= i < lines.len() ==> is_label(#[trigger] lines[i])
}

/// What a directive asks for.
///
/// The connection is read first, then the name of the directive, then its
/// other arguments: a `send` knows none, an `until` knows
/// `no_error_fields`, `err_field_typs` and `ignore`, and arguments that are
/// left over are refused. An `until` awaits its lines as labels, in order,
/// and refuses a line that is no label.
pub open spec fn planned(directive: Seq<char>, input: Seq<char>, args: ArgsView) -> Result<
    PlanView,
    UsageError,
> {
    match conn_named(args) {
        Err(e) => Err(e),
        Ok(conn) => {
            let rest = args.without("conn"@);
            if directive == "send"@ {
                if rest.keys.len() != 0 {
                    Err(UsageError::ExtraArguments)
                } else {
                    Ok(PlanView::Send { conn, lines: lines_of(input) })
                }
            } else if directive == "until"@ {
                if leftover(rest).keys.len() != 0 {
                    Err(UsageError::ExtraArguments)
                } else if !all_labels(lines_of(input)) {
                    Err(UsageError::UnknownTarget)
                } else {
                    Ok(
                        PlanView::Until {
                            conn,
                            wait: WaitView {
                                targets: lines_of(input),
                                filter: filter_asked(rest),
                                ignore: ignore_asked(rest),
                                seen: 0,
                                trace: Seq::empty(),
                            },
                        },
                    )
                }
            } else {
                Err(UsageError::UnknownDirective)
            }
        },
    }
}

/// Whether every line is a label that an entry can bear.
pub fn labels_only(lines: &Vec<String>) -> (all: bool)
    ensures
        all == all_labels(texts(lines@)),
{
    let mut i: usize = 0;
    while i < lines.len()
        invariant
            i <= lines.len(),
            forall|k: int| 0 <= k < i ==> is_label(#[trigger] texts(lines@)[k]),
        decreases lines.len() - i,
    {
        if !known_label(&lines[i]) {
            assert(!is_label(texts(lines@)[i as int]));
            return false;
        }
        i += 1;
    }
    true
}

/// Reads a directive: its name, its lines and its arguments.
pub fn plan(directive: &str, input: &str, args: Args) -> (r: Result<Plan, UsageError>)
    ensures
        match planned(directive@, input@, args@) {
            Ok(view) => r matches Ok(p) && p@ == view,
            Err(e) => r == Err::<Plan, UsageError>(e),
        },
{
    let mut args = args;
    let conn = match args.remove("conn") {
        None => None,
        Some(values) => {
            if values.len() == 0 {
                return Err(UsageError::MissingConnName);
            }
            Some(values[0].clone())
        },
    };
    let name = directive.to_owned();
    if name == "send".to_owned() {
        if !args.is_empty() {
            return Err(UsageError::ExtraArguments);
        }
        Ok(Plan::Send { conn, lines: lines(input) })
    } else if name == "until".to_owned() {
        let err_field_typs: Vec<char> = match args.remove("no_error_fields") {
            Some(_) => Vec::new(),
            None => match args.remove("err_field_typs") {
                Some(values) => {
                    let none = String::new();
                    chars_of(join(&values, none.as_str()).as_str())
                },
                None => {
                    let mut codes: Vec<char> = Vec::new();
                    codes.push('C');
                    codes.push('S');
                    codes.push('M');
                    assert(codes@ =~= seq!['C', 'S', 'M']);
                    codes
                },
            },
        };
        let ignore: Vec<String> = match args.remove("ignore") {
            Some(values) => values,
            None => {
                let none: Vec<String> = Vec::new();
                assert(texts(none@) =~= Seq::<Seq<char>>::empty());
                none
            },
        };
        if !args.is_empty() {
            return Err(UsageError::ExtraArguments);
        }
        let targets = lines(input);
        if !labels_only(&targets) {
            return Err(UsageError::UnknownTarget);
        }
        let wait = Wait::new(targets, err_field_typs, ignore);
        Ok(Plan::Until { conn, wait })
    } else {
        Err(UsageError::UnknownDirective)
    }
}

/// The kinds of message that a line can send.
#[derive(Debug, Clone, Copy, PartialEq, Eq)]
pub enum Kind {
    Query,
    Parse,
    Sync,
    Bind,
    Describe,
    Execute,
    CopyData,
    CopyDone,
    CopyFail,
}

/// The kind that a word names.
pub open spec fn kind_named(word: Seq<char>) -> Option<Kind> {
    if word == "Query"@ {
        Some(Kind::Query)
    } else if word == "Parse"@ {
        Some(Kind::Parse)
    } else if word == "Sync"@ {
        Some(Kind::Sync)
    } else if word == "Bind"@ {
        Some(Kind::Bind)
    } else if word == "Describe"@ {
        Some(Kind::Describe)
    } else if word == "Execute"@ {
        Some(Kind::Execute)
    } else if word == "CopyData"@ {
        Some(Kind::CopyData)
    } else if word == "CopyDone"@ {
        Some(Kind::CopyDone)
    } else if word == "CopyFail"@ {
        Some(Kind::CopyFail)
    } else {
        None
    }
}

/// The arguments of a line to send: what follows its first space, and an
/// empty JSON object where nothing does.
pub open spec fn args_of(line: Seq<char>) -> Seq<char> {
    match tail_of(line) {
        Some(rest) => rest,
        None => "{}"@,
    }
}

/// One line to send: the kind of message, and its arguments as JSON text.
#[derive(Debug)]
pub struct SendLine {
    pub kind: Kind,
    pub args: String,
}

/// Reads a line to send: its first word names the kind of message, and what
/// follows the first space holds the arguments.
pub fn send_line(line: &str) -> (r: Result<SendLine, UsageError>)
    ensures
        match kind_named(head_of(line@)) {
            Some(kind) => r matches Ok(l) && l.kind == kind && l.args@ == args_of(line@),
            None => r == Err::<SendLine, UsageError>(UsageError::UnknownMessage),
        },
{
    let (word, rest) = split_at_space(line);
    let args = match rest {
        Some(rest) => rest,
        None => "{}".to_owned(),
    };
    let kind = if word == "Query".to_owned() {
        Kind::Query
    } else if word == "Parse".to_owned() {
        Kind::Parse
    } else if word == "Sync".to_owned() {
        Kind::Sync
    } else if word == "Bind".to_owned() {
        Kind::Bind
    } else if word == "Describe".to_owned() {
        Kind::Describe
    } else if word == "Execute".to_owned() {
        Kind::Execute
    } else if word == "CopyData".to_owned() {
        Kind::CopyData
    } else if word == "CopyDone".to_owned() {
        Kind::CopyDone
    } else if word == "CopyFail".to_owned() {
        Kind::CopyFail
    } else {
        return Err(UsageError::UnknownMessage);
    };
    Ok(SendLine { kind, args })
}

/// The text that an `until` gives back: each line of the trace, and a line
/// feed behind each line but the last; then one more line feed.
pub open spec fn until_text(trace: Seq<Seq<char>>) -> Seq<char> {
    joined(trace, "\n"@) + "\n"@
}

/// The output of a directive: nothing for a `send`, the trace for an
/// `until`.
pub open spec fn output_of(plan: PlanView) -> Seq<char> {
    match plan {
        PlanView::Send { .. } => Seq::empty(),
        PlanView::Until { wait, .. } => until_text(wait.trace),
    }
}

/// A `send` gives back no text, whatever its lines and its arguments are.
pub proof fn send_has_no_output(input: Seq<char>, args: ArgsView)
    ensures
        planned("send"@, input, args) matches Ok(plan) ==> plan is Send && output_of(plan).len()
            == 0,
{
}

impl Plan {
    /// The text that the directive gives back once it has run.
    pub fn output(&self) -> (out: String)
        ensures
            out@ == output_of(self@),
            self is Send ==> out@.len() == 0,
    {
        match self {
            Plan::Send { .. } => String::new(),
            Plan::Until { wait, .. } => {
                let mut out = join(wait.trace(), "\n");
                out.append("\n");
                out
            },
        }
    }
}

} // verus!
