//! The pipe client: a hook runs it to hand one message to the daemon.
use crate::daemon::pipe::{
    a_braced_line_is_one_message, event_in, event_of, field_in, fields_in, lines_of, one_line,
    FieldView,
};
use crate::daemon::types::Event;
use crate::json::{
    error_message, json_of, nesting, parse_json, parsed, print_json, set_member, Json, Scalar,
    NESTING_MAX,
};
use crate::text::{same, starts_with, texts, trim, trimmed, Blank};
use serde_json::Value;
use vstd::prelude::*;
use vstd::string::StringExecFns;
use vstd::utf8::{decode_utf8, encode_utf8};

verus! {

/// How often a daemon that should be running is tried.
pub const FAST_RETRIES: u32 = 4;

/// How often a daemon that has just been started is tried.
pub const COLD_RETRIES: u32 = 35;

/// The pause after an attempt that failed.
pub const RETRY_DELAY_MS: u64 = 120;

/// What the client is asked to do.
#[derive(Debug)]
pub struct Options {
    pub use_stdin: bool,
    pub timing: bool,
    pub ping: bool,
    pub action: Option<String>,
    pub status: Option<String>,
    pub positional: Vec<String>,
}

/// What the client is asked to do, as contracts speak of it.
#[verifier::ext_equal]
pub struct OptionsView {
    pub use_stdin: bool,
    pub timing: bool,
    pub ping: bool,
    pub action: Option<Seq<char>>,
    pub status: Option<Seq<char>>,
    pub positional: Seq<Seq<char>>,
}

/// The text of an optional string.
pub open spec fn opt_text(s: Option<String>) -> Option<Seq<char>> {
    match s {
        Some(s) => Some(s@),
        None => None,
    }
}

impl View for Options {
    type V = OptionsView;

    open spec fn view(&self) -> OptionsView {
        OptionsView {
            use_stdin: self.use_stdin,
            timing: self.timing,
            ping: self.ping,
            action: opt_text(self.action),
            status: opt_text(self.status),
            positional: texts(self.positional@),
        }
    }
}

/// What a command line comes to.
#[derive(Debug)]
pub enum Invocation {
    Run(Options),
    Help,
    Version,
    /// An option lacks its value.
    MissingValue(String),
    Unknown(String),
}

/// What a command line comes to, as contracts speak of it.
#[verifier::ext_equal]
pub enum InvocationView {
    Run(OptionsView),
    Help,
    Version,
    MissingValue(Seq<char>),
    Unknown(Seq<char>),
}

impl View for Invocation {
    type V = InvocationView;

    open spec fn view(&self) -> InvocationView {
        match self {
            Invocation::Run(options) => InvocationView::Run(options@),
            Invocation::Help => InvocationView::Help,
            Invocation::Version => InvocationView::Version,
            Invocation::MissingValue(option) => InvocationView::MissingValue(option@),
            Invocation::Unknown(option) => InvocationView::Unknown(option@),
        }
    }
}

/// Nothing asked for yet.
pub open spec fn no_options() -> OptionsView {
    OptionsView {
        use_stdin: false,
        timing: false,
        ping: false,
        action: None,
        status: None,
        positional: Seq::empty(),
    }
}

/// What the arguments from the one at `i` on come to, after `o`. They are read from left to right,
/// and the first that settles the matter ends it.
pub open spec fn invocation(args: Seq<Seq<char>>, i: int, o: OptionsView) -> InvocationView
    decreases args.len() - i,
{
    if i < 0 || i >= args.len() {
        InvocationView::Run(o)
    } else {
        let arg = args[i];
        if arg == "--stdin"@ {
            invocation(args, i + 1, OptionsView { use_stdin: true, ..o })
        } else if arg == "--ping"@ {
            invocation(args, i + 1, OptionsView { ping: true, ..o })
        } else if arg == "--timing"@ {
            invocation(args, i + 1, OptionsView { timing: true, ..o })
        } else if arg == "--action"@ {
            if i + 1 < args.len() {
                invocation(args, i + 2, OptionsView { action: Some(args[i + 1]), ..o })
            } else {
                InvocationView::MissingValue(arg)
            }
        } else if arg == "--status"@ {
            if i + 1 < args.len() {
                invocation(args, i + 2, OptionsView { status: Some(args[i + 1]), ..o })
            } else {
                InvocationView::MissingValue(arg)
            }
        } else if arg == "--help"@ || arg == "-h"@ {
            InvocationView::Help
        } else if arg == "--version"@ || arg == "-V"@ {
            InvocationView::Version
        } else if "--"@.is_prefix_of(arg) {
            InvocationView::Unknown(arg)
        } else {
            invocation(args, i + 1, OptionsView { positional: o.positional.push(arg), ..o })
        }
    }
}

/// Reads a command line, whose first entry is the name of the program.
pub fn parse_args(args: &Vec<String>) -> (r: Invocation)
    ensures
        r@ == invocation(texts(args@), 1, no_options()),
{
    let mut options = Options {
        use_stdin: false,
        timing: false,
        ping: false,
        action: None,
        status: None,
        positional: Vec::new(),
    };
    assert(options@ =~= no_options());
    let ghost all = texts(args@);
    if args.len() == 0 {
        return Invocation::Run(options);
    }
    let mut i: usize = 1;
    while i < args.len()
        invariant
            1 <= i <= args.len(),
            all == texts(args@),
            invocation(all, i as int, options@) == invocation(all, 1, no_options()),
        decreases args.len() - i,
    {
        let arg = args[i].as_str();
        let ghost before = options@;
        assert(all[i as int] == arg@);
        if same(arg, "--stdin") {
            options.use_stdin = true;
            assert(options@ =~= (OptionsView { use_stdin: true, ..before }));
        } else if same(arg, "--ping") {
            options.ping = true;
            assert(options@ =~= (OptionsView { ping: true, ..before }));
        } else if same(arg, "--timing") {
            options.timing = true;
            assert(options@ =~= (OptionsView { timing: true, ..before }));
        } else if same(arg, "--action") {
            if i + 1 >= args.len() {
                return Invocation::MissingValue(arg.to_owned());
            }
            i += 1;
            options.action = Some(args[i].clone());
            assert(all[i as int] == args@[i as int]@);
            assert(options@ =~= (OptionsView { action: Some(all[i as int]), ..before }));
        } else if same(arg, "--status") {
            if i + 1 >= args.len() {
                return Invocation::MissingValue(arg.to_owned());
            }
            i += 1;
            options.status = Some(args[i].clone());
            assert(all[i as int] == args@[i as int]@);
            assert(options@ =~= (OptionsView { status: Some(all[i as int]), ..before }));
        } else if same(arg, "--help") || same(arg, "-h") {
            return Invocation::Help;
        } else if same(arg, "--version") || same(arg, "-V") {
            return Invocation::Version;
        } else if starts_with(arg, "--") {
            return Invocation::Unknown(arg.to_owned());
        } else {
            options.positional.push(arg.to_owned());
            assert(texts(options.positional@) =~= before.positional.push(arg@));
            assert(options@ =~= (OptionsView {
                positional: before.positional.push(arg@),
                ..before
            }));
        }
        i += 1;
    }
    Invocation::Run(options)
}

/// Whether a run reads its standard input. A probe never does.
pub fn reads_stdin(options: &Options) -> (r: bool)
    ensures
        r == (!options.ping && options.use_stdin),
{
    !options.ping && options.use_stdin
}

/// The message before fields are put into it: a probe, the standard input or an empty object in
/// its place, or the first argument.
pub open spec fn base_message(o: OptionsView, stdin: Seq<char>) -> Option<Seq<char>> {
    if o.ping {
        Some("{\"action\":\"ping\"}"@)
    } else if o.use_stdin {
        let text = trimmed(Blank::Unicode, stdin);
        Some(
            if text.len() == 0 {
                "{}"@
            } else {
                text
            },
        )
    } else if o.positional.len() > 0 {
        Some(o.positional[0])
    } else {
        None
    }
}

/// Why there is no message.
#[derive(Debug)]
pub enum ClientError {
    /// Neither a probe nor the standard input nor an argument was asked for.
    Usage,
    /// A field is to go into what is no JSON.
    Invalid(String),
    /// A field is to go into JSON that has no fields.
    NotAnObject,
}

/// Why there is no message, as contracts speak of it.
pub enum ClientErrorView {
    Usage,
    Invalid(Seq<char>),
    NotAnObject,
}

impl View for ClientError {
    type V = ClientErrorView;

    open spec fn view(&self) -> ClientErrorView {
        match self {
            ClientError::Usage => ClientErrorView::Usage,
            ClientError::Invalid(reason) => ClientErrorView::Invalid(reason@),
            ClientError::NotAnObject => ClientErrorView::NotAnObject,
        }
    }
}

impl ClientError {
    /// The text of the error.
    pub open spec fn said(e: ClientErrorView) -> Seq<char> {
        match e {
            ClientErrorView::Usage => "nothing to send"@,
            ClientErrorView::Invalid(reason) => "Invalid JSON: "@ + reason,
            ClientErrorView::NotAnObject => "JSON payload is not an object"@,
        }
    }

    pub fn text(&self) -> (s: String)
        ensures
            s@ == Self::said(self@),
    {
        match self {
            ClientError::Usage => "nothing to send".to_owned(),
            ClientError::Invalid(reason) => {
                let mut s = "Invalid JSON: ".to_owned();
                s.append(reason.as_str());
                s
            },
            ClientError::NotAnObject => "JSON payload is not an object".to_owned(),
        }
    }
}

/// Puts a text field into a JSON object, in place of the one with that key if there is one.
pub fn inject_field(json: &str, key: &str, value: &str) -> (r: Result<String, ClientError>)
    ensures
        match parsed(json@) {
            Err(reason) => r matches Err(e) && e@ == ClientErrorView::Invalid(reason),
            Ok(Json::Object(members)) => r matches Ok(s) && one_line(s@) && parsed(s@) == Ok::<
                Json,
                Seq<char>,
            >(Json::Object(members.insert(key@, Json::Text(value@)))),
            Ok(_) => r matches Err(e) && e@ == ClientErrorView::NotAnObject,
        },
{
    match parse_json(json) {
        Ok(v) => put_field(v, key, value),
        Err(e) => Err(ClientError::Invalid(error_message(&e))),
    }
}

/// Puts a text field into a JSON value that has been read, and writes it down.
pub fn put_field(v: Value, key: &str, value: &str) -> (r: Result<String, ClientError>)
    requires
        nesting(v) <= NESTING_MAX,
    ensures
        match json_of(v) {
            Json::Object(members) => r matches Ok(s) && one_line(s@) && parsed(s@) == Ok::<
                Json,
                Seq<char>,
            >(Json::Object(members.insert(key@, Json::Text(value@)))),
            _ => r matches Err(e) && e@ == ClientErrorView::NotAnObject,
        },
{
    let mut v = v;
    if !set_member(&mut v, key, Scalar::Text(value.to_owned())) {
        return Err(ClientError::NotAnObject);
    }
    match print_json(&v) {
        Ok(s) => Ok(s),
        Err(e) => Err(ClientError::Invalid(error_message(&e))),
    }
}

/// The members of a message with the given fields put in.
pub open spec fn with_fields(
    members: Map<Seq<char>, Json>,
    action: Option<Seq<char>>,
    status: Option<Seq<char>>,
) -> Map<Seq<char>, Json> {
    let members = match action {
        Some(a) => members.insert("action"@, Json::Text(a)),
        None => members,
    };
    match status {
        Some(s) => members.insert("status"@, Json::Text(s)),
        None => members,
    }
}

/// Whether `r` is the payload for the options and the standard input. Without a field to put in,
/// the message goes out as it is.
pub open spec fn is_payload(
    o: OptionsView,
    stdin: Seq<char>,
    r: Result<Seq<char>, ClientErrorView>,
) -> bool {
    match base_message(o, stdin) {
        None => r == Err::<Seq<char>, ClientErrorView>(ClientErrorView::Usage),
        Some(base) => if o.action is None && o.status is None {
            r == Ok::<Seq<char>, ClientErrorView>(base.push('\n'))
        } else {
            match parsed(base) {
                Err(reason) => r == Err::<Seq<char>, ClientErrorView>(
                    ClientErrorView::Invalid(reason),
                ),
                Ok(Json::Object(members)) => r matches Ok(p) && {
                    &&& p.len() > 0
                    &&& p.last() == '\n'
                    &&& one_line(p.drop_last())
                    &&& parsed(p.drop_last()) == Ok::<Json, Seq<char>>(
                        Json::Object(with_fields(members, o.action, o.status)),
                    )
                },
                Ok(_) => r == Err::<Seq<char>, ClientErrorView>(ClientErrorView::NotAnObject),
            }
        },
    }
}

/// The text of a payload, or the error in its place.
pub open spec fn payload_view(
    r: Result<String, ClientError>,
) -> Result<Seq<char>, ClientErrorView> {
    match r {
        Ok(s) => Ok(s@),
        Err(e) => Err(e@),
    }
}

/// What goes to the daemon.
pub fn build_payload(options: &Options, stdin: &str) -> (r: Result<String, ClientError>)
    ensures
        is_payload(options@, stdin@, payload_view(r)),
{
    let mut msg: String = if options.ping {
        "{\"action\":\"ping\"}".to_owned()
    } else if options.use_stdin {
        let text = trim(Blank::Unicode, stdin);
        if text.as_str().is_empty() {
            "{}".to_owned()
        } else {
            text
        }
    } else if options.positional.len() > 0 {
        assert(texts(options.positional@)[0] == options.positional@[0]@);
        options.positional[0].clone()
    } else {
        return Err(ClientError::Usage);
    };
    assert(base_message(options@, stdin@) == Some(msg@));
    if let Some(action) = &options.action {
        msg = match inject_field(msg.as_str(), "action", action.as_str()) {
            Ok(s) => s,
            Err(e) => return Err(e),
        };
    }
    if let Some(status) = &options.status {
        msg = match inject_field(msg.as_str(), "status", status.as_str()) {
            Ok(s) => s,
            Err(e) => return Err(e),
        };
    }
    let ghost line = msg@;
    msg.push('\n');
    assert(msg@.drop_last() == line);
    Ok(msg)
}

/// What comes next on the way to the daemon.
#[derive(Debug, Clone, Copy, PartialEq, Eq, Structural)]
pub enum SendStep {
    /// Try to send. After a failure, wait [`RETRY_DELAY_MS`].
    Try,
    /// Start the daemon.
    StartDaemon,
    /// Report the last failure.
    GiveUp,
}

/// The next step after a number of failures.
pub open spec fn send_step(failures: u32, started: bool) -> SendStep {
    if failures < FAST_RETRIES {
        SendStep::Try
    } else if !started {
        SendStep::StartDaemon
    } else if failures < FAST_RETRIES + COLD_RETRIES {
        SendStep::Try
    } else {
        SendStep::GiveUp
    }
}

pub fn next_send_step(failures: u32, started: bool) -> (step: SendStep)
    ensures
        step == send_step(failures, started),
{
    if failures < FAST_RETRIES {
        SendStep::Try
    } else if !started {
        SendStep::StartDaemon
    } else if failures < FAST_RETRIES + COLD_RETRIES {
        SendStep::Try
    } else {
        SendStep::GiveUp
    }
}

/// Where the daemon never answers, it is started once, after the quick attempts have failed, and
/// the client gives up only after all attempts.
pub proof fn the_daemon_is_started_before_giving_up(failures: u32, started: bool)
    ensures
        send_step(failures, started) == SendStep::StartDaemon <==> failures >= FAST_RETRIES
            && !started,
        send_step(failures, started) == SendStep::GiveUp <==> started && failures >= FAST_RETRIES
            + COLD_RETRIES,
{
}

/// The fields that the client puts in are what the daemon reads, and the other members arrive as
/// they were.
pub proof fn injected_fields_are_read(
    members: Map<Seq<char>, Json>,
    action: Option<Seq<char>>,
    status: Option<Seq<char>>,
    key: Seq<char>,
)
    ensures
        ({
            let json = Json::Object(with_fields(members, action, status));
            &&& action matches Some(a) ==> field_in(json, "action"@) == FieldView::Text(a)
            &&& status matches Some(s) ==> field_in(json, "status"@) == FieldView::Text(s)
            &&& (key != "action"@ || action is None) && (key != "status"@ || status is None)
                ==> field_in(json, key) == field_in(Json::Object(members), key)
        }),
{
    assert("action"@ != "status"@) by {
        reveal_strlit("action");
        reveal_strlit("status");
        assert("action"@[0] != "status"@[0]);
    }
}

/// A payload with fields put in reaches the daemon as exactly one message, which stands for the
/// event of its fields.
pub proof fn a_payload_is_one_message(
    o: OptionsView,
    stdin: Seq<char>,
    base: Seq<char>,
    members: Map<Seq<char>, Json>,
    payload: Seq<char>,
)
    requires
        base_message(o, stdin) == Some(base),
        parsed(base) == Ok::<Json, Seq<char>>(Json::Object(members)),
        o.action is Some || o.status is Some,
        is_payload(o, stdin, Ok(payload)),
    ensures
        lines_of(decode_utf8(encode_utf8(payload))) == seq![payload.drop_last()],
        event_in(payload.drop_last()) == event_of(
            fields_in(Json::Object(with_fields(members, o.action, o.status))),
        ),
{
    let line = payload.drop_last();
    a_braced_line_is_one_message(line);
    assert(line.push('\n') == payload);
}

/// A `stop` with a status arrives as a stop with that status, whatever else the message holds.
pub proof fn a_stop_keeps_its_status(
    o: OptionsView,
    stdin: Seq<char>,
    base: Seq<char>,
    members: Map<Seq<char>, Json>,
    payload: Seq<char>,
    status: Seq<char>,
)
    requires
        base_message(o, stdin) == Some(base),
        parsed(base) == Ok::<Json, Seq<char>>(Json::Object(members)),
        o.action == Some("stop"@),
        o.status == Some(status),
        is_payload(o, stdin, Ok(payload)),
    ensures
        event_in(payload.drop_last()) == Some(Event::Stop { status }),
{
    injected_fields_are_read(members, o.action, o.status, "stop"@);
    a_payload_is_one_message(o, stdin, base, members, payload);
    assert("stop"@ != "thinking"@ && "stop"@ != "pre_tool"@ && "stop"@ != "post_tool"@) by {
        reveal_strlit("stop");
        reveal_strlit("thinking");
        reveal_strlit("pre_tool");
        reveal_strlit("post_tool");
        assert("stop"@[0] != "thinking"@[0]);
        assert("stop"@[0] != "pre_tool"@[0]);
        assert("stop"@[0] != "post_tool"@[0]);
    }
}

/// Arguments are read from left to right: a flag is set and the next one read; an option takes the
/// argument behind it for its value, whatever that is; help and version end the reading, and so
/// does anything else that begins with two dashes; all the rest is kept in order.
pub proof fn arguments_are_read_in_order(args: Seq<Seq<char>>, i: int, o: OptionsView)
    requires
        0 <= i < args.len(),
    ensures
        ({
            let arg = args[i];
            let known = arg == "--stdin"@ || arg == "--ping"@ || arg == "--timing"@ || arg
                == "--action"@ || arg == "--status"@ || arg == "--help"@ || arg == "-h"@ || arg
                == "--version"@ || arg == "-V"@;
            let dashes = arg.len() >= 2 && arg[0] == '-' && arg[1] == '-';
            let got = invocation(args, i, o);
            &&& arg == "--stdin"@ ==> got == invocation(
                args,
                i + 1,
                (OptionsView { use_stdin: true, ..o }),
            )
            &&& arg == "--ping"@ ==> got == invocation(
                args,
                i + 1,
                (OptionsView { ping: true, ..o }),
            )
            &&& arg == "--timing"@ ==> got == invocation(
                args,
                i + 1,
                (OptionsView { timing: true, ..o }),
            )
            &&& arg == "--action"@ && i + 1 < args.len() ==> got == invocation(
                args,
                i + 2,
                (OptionsView { action: Some(args[i + 1]), ..o }),
            )
            &&& arg == "--status"@ && i + 1 < args.len() ==> got == invocation(
                args,
                i + 2,
                (OptionsView { status: Some(args[i + 1]), ..o }),
            )
            &&& (arg == "--action"@ || arg == "--status"@) && i + 1 == args.len() ==> got
                == InvocationView::MissingValue(arg)
            &&& arg == "--help"@ || arg == "-h"@ ==> got is Help
            &&& arg == "--version"@ || arg == "-V"@ ==> got is Version
            &&& !known && dashes ==> got == InvocationView::Unknown(arg)
            &&& !known && !dashes ==> got == invocation(
                args,
                i + 1,
                (OptionsView { positional: o.positional.push(arg), ..o }),
            )
        }),
        invocation(args, args.len() as int, o) == InvocationView::Run(o),
{
    reveal_strlit("--stdin");
    reveal_strlit("--ping");
    reveal_strlit("--timing");
    reveal_strlit("--action");
    reveal_strlit("--status");
    reveal_strlit("--help");
    reveal_strlit("-h");
    reveal_strlit("--version");
    reveal_strlit("-V");
    reveal_strlit("--");
    let arg = args[i];
    assert("--"@.is_prefix_of(arg) <==> arg.len() >= 2 && arg[0] == '-' && arg[1] == '-') by {
        if arg.len() >= 2 && arg[0] == '-' && arg[1] == '-' {
            assert("--"@ =~= arg.subrange(0, 2));
        }
        if "--"@.is_prefix_of(arg) {
            assert(arg.subrange(0, 2)[0] == '-' && arg.subrange(0, 2)[1] == '-');
        }
    }
    assert("--action"@[2] == 'a' && "--status"@[2] == 's' && "--timing"@[2] == 't');
    assert("--stdin"@.len() == 7 && "--ping"@[2] == 'p' && "--help"@[2] == 'h');
}

/// A client begins with nothing asked for.
pub proof fn a_client_begins_with_nothing(args: Seq<Seq<char>>)
    ensures
        ({
            let o = no_options();
            &&& !o.use_stdin && !o.timing && !o.ping
            &&& o.action is None && o.status is None
            &&& o.positional.len() == 0
        }),
        args.len() <= 1 ==> invocation(args, 1, no_options()) == InvocationView::Run(no_options()),
{
}

/// What a client sends: a probe, if one is asked for; else its standard input without the blanks
/// around it, or an empty object where nothing is left, if that is asked for; else its first
/// argument, if there is one.
pub proof fn a_message_has_its_source(o: OptionsView, stdin: Seq<char>)
    ensures
        ({
            let text = trimmed(Blank::Unicode, stdin);
            let base = base_message(o, stdin);
            &&& o.ping ==> base == Some("{\"action\":\"ping\"}"@)
            &&& !o.ping && o.use_stdin && text.len() > 0 ==> base == Some(text)
            &&& !o.ping && o.use_stdin && text.len() == 0 ==> base == Some("{}"@)
            &&& !o.ping && !o.use_stdin && o.positional.len() > 0 ==> base == Some(o.positional[0])
            &&& !o.ping && !o.use_stdin && o.positional.len() == 0 ==> base is None
        }),
{
}

/// A message without fields to put in goes out as it is, with a line feed behind it, whether it is
/// JSON or not. One with fields goes out as one line that reads as the same object with these
/// fields; it fails where the message is no JSON, for the reason that the reader gives, or no
/// object. Without a message there is nothing to send.
pub proof fn a_payload_is_its_message(
    o: OptionsView,
    stdin: Seq<char>,
    base: Seq<char>,
    r: Result<Seq<char>, ClientErrorView>,
)
    requires
        is_payload(o, stdin, r),
    ensures
        base_message(o, stdin) is None <==> r matches Err(ClientErrorView::Usage),
        base_message(o, stdin) == Some(base) ==> {
            let plain = o.action is None && o.status is None;
            &&& plain ==> r == Ok::<Seq<char>, ClientErrorView>(base + seq!['\n'])
            &&& !plain && parsed(base) is Err ==> r == Err::<Seq<char>, ClientErrorView>(
                ClientErrorView::Invalid(parsed(base)->Err_0),
            )
            &&& !plain && parsed(base) is Ok && !(parsed(base)->Ok_0 is Object) ==> r == Err::<
                Seq<char>,
                ClientErrorView,
            >(ClientErrorView::NotAnObject)
            &&& !plain && parsed(base) is Ok && parsed(base)->Ok_0 is Object ==> {
                let members = parsed(base)->Ok_0->Object_0;
                let p = r->Ok_0;
                let line = p.take(p.len() - 1);
                let sent = parsed(line)->Ok_0->Object_0;
                &&& r is Ok
                &&& p.len() >= 3 && p.last() == '\n' && !line.contains('\n') && line[0] == '{'
                    && line.last() == '}'
                &&& parsed(line) is Ok && parsed(line)->Ok_0 is Object
                &&& forall|key: Seq<char>| #[trigger]
                    sent.contains_key(key) <==> members.contains_key(key) || (key == "action"@
                        && o.action is Some) || (key == "status"@ && o.status is Some)
                &&& o.action matches Some(action) ==> sent["action"@] == Json::Text(action)
                &&& o.status matches Some(status) ==> sent["status"@] == Json::Text(status)
                &&& forall|key: Seq<char>| #[trigger]
                    members.contains_key(key) && !(key == "action"@ && o.action is Some) && !(key
                        == "status"@ && o.status is Some) ==> sent[key] == members[key]
            }
        },
{
    assert("action"@ != "status"@) by {
        reveal_strlit("action");
        reveal_strlit("status");
        assert("action"@[0] != "status"@[0]);
    }
    if base_message(o, stdin) == Some(base) {
        assert(base + seq!['\n'] =~= base.push('\n'));
        if let Ok(p) = r {
            if p.len() > 0 {
                assert(p.take(p.len() - 1) =~= p.drop_last());
            }
        }
    }
}

/// Each error has its text.
pub proof fn each_error_has_its_text(reason: Seq<char>)
    ensures
        ClientError::said(ClientErrorView::Usage) == "nothing to send"@,
        ClientError::said(ClientErrorView::Invalid(reason)) == "Invalid JSON: "@ + reason,
        ClientError::said(ClientErrorView::NotAnObject) == "JSON payload is not an object"@,
{
}

/// Four quick attempts, then the daemon is started unless it has been, then 35 more, then no more.
pub proof fn attempts_are_counted(failures: u32, started: bool)
    ensures
        failures < 4 ==> send_step(failures, started) == SendStep::Try,
        failures >= 4 && !started ==> send_step(failures, started) == SendStep::StartDaemon,
        4 <= failures < 39 && started ==> send_step(failures, started) == SendStep::Try,
        failures >= 39 && started ==> send_step(failures, started) == SendStep::GiveUp,
{
}

} // verus!
