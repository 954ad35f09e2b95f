//! Remote automation commands: the request and result records, parameter
//! lookup, and the validation that turns a request into an input action.

use vstd::prelude::*;
use vstd::string::*;
use crate::config::Config;
use crate::event::{utf16_encode, utf16_units, UiaSnapshot};
use crate::keys::{combo_key, combo_modifiers, key_strokes, parse_key_combo, split_plus, stroke_plan, KeyStroke};
use crate::text::{chars_of, join2, lower_of, lowercase_chars, str_eq};

verus! {

/// Timeout applied when a request names none.
pub const DEFAULT_TIMEOUT_MS: u64 = 5000;

/// Wheel movement of one scroll tick.
pub const WHEEL_TICK: i64 = 120;

/// A request parameter or result field, as far as the executor reads it.
#[derive(Debug, Clone)]
pub enum FieldValue {
    Text(String),
    Integer(i64),
    /// Any other JSON value (a bool, a float, an array, an object, null).
    Other,
}

/// A command received from the backend. Parameter names are unique when
/// the request comes from a JSON object (see `names_unique`); lookups take
/// the first entry of a name.
#[derive(Debug, Clone)]
pub struct Command {
    pub command_id: String,
    pub action: String,
    pub parameters: Vec<(String, FieldValue)>,
    pub timeout_ms: u64,
}

/// The timeout of a request that names none.
pub fn default_timeout_ms() -> (r: u64)
    ensures
        r == DEFAULT_TIMEOUT_MS,
{
    DEFAULT_TIMEOUT_MS
}

impl Command {
    /// Builds a request, filling in what the frame left out: no parameters,
    /// and the default timeout.
    pub fn from_parts(
        command_id: String,
        action: String,
        parameters: Option<Vec<(String, FieldValue)>>,
        timeout_ms: Option<u64>,
    ) -> (r: Command)
        ensures
            r.command_id == command_id,
            r.action == action,
            parameters is None ==> r.parameters@.len() == 0,
            parameters matches Some(p) ==> r.parameters == p,
            timeout_ms is None ==> r.timeout_ms == DEFAULT_TIMEOUT_MS,
            timeout_ms matches Some(t) ==> r.timeout_ms == t,
    {
        let parameters = match parameters {
            Some(p) => p,
            None => Vec::new(),
        };
        let timeout_ms = match timeout_ms {
            Some(t) => t,
            None => default_timeout_ms(),
        };
        Command { command_id, action, parameters, timeout_ms }
    }
}

/// The value stored under `key`: the first entry with that name.
pub open spec fn lookup(params: Seq<(String, FieldValue)>, key: Seq<char>) -> Option<FieldValue>
    decreases params.len(),
{
    if params.len() == 0 {
        None
    } else if params[0].0@ == key {
        Some(params[0].1)
    } else {
        lookup(params.drop_first(), key)
    }
}

/// No two entries share a name, as in a JSON object read into a map.
pub open spec fn names_unique(params: Seq<(String, FieldValue)>) -> bool {
    forall|i: int, j: int| 0 <= i < j < params.len() ==> (#[trigger] params[i]).0@ != (#[trigger] params[j]).0@
}

/// With unique names, the value looked up under an entry's name is that
/// entry's value.
pub proof fn lemma_lookup_unique(params: Seq<(String, FieldValue)>, i: int)
    requires
        names_unique(params),
        0 <= i < params.len(),
    ensures
        lookup(params, params[i].0@) == Some(params[i].1),
    decreases i,
{
    if i > 0 {
        let rest = params.drop_first();
        assert(params[0].0@ != params[i].0@);
        assert forall|a: int, b: int| 0 <= a < b < rest.len() implies (#[trigger] rest[a]).0@ != (#[trigger] rest[b]).0@ by {
            assert(rest[a] == params[a + 1] && rest[b] == params[b + 1]);
        }
        assert(rest[i - 1] == params[i]);
        lemma_lookup_unique(rest, i - 1);
    }
}

/// The text under `key`, or the empty string when it is absent or not text.
pub open spec fn text_param(params: Seq<(String, FieldValue)>, key: Seq<char>) -> Seq<char> {
    match lookup(params, key) {
        Some(FieldValue::Text(s)) => s@,
        _ => Seq::<char>::empty(),
    }
}

/// The integer under `key`, or `default` when it is absent or not an integer.
pub open spec fn int_param(params: Seq<(String, FieldValue)>, key: Seq<char>, default: i64) -> i64 {
    match lookup(params, key) {
        Some(FieldValue::Integer(v)) => v,
        _ => default,
    }
}

/// The index of the first entry named `key`.
pub fn find_param(params: &Vec<(String, FieldValue)>, key: &str) -> (r: Option<usize>)
    ensures
        match r {
            Some(i) => i < params@.len() && lookup(params@, key@) == Some(params@[i as int].1),
            None => lookup(params@, key@) is None,
        },
{
    let mut i: usize = 0;
    assert(params@.subrange(0, params@.len() as int) =~= params@);
    while i < params.len()
        invariant
            i <= params@.len(),
            lookup(params@, key@) == lookup(params@.subrange(i as int, params@.len() as int), key@),
        decreases params@.len() - i,
    {
        let ghost rest = params@.subrange(i as int, params@.len() as int);
        assert(rest.drop_first() =~= params@.subrange(i + 1, params@.len() as int));
        if str_eq(params[i].0.as_str(), key) {
            return Some(i);
        }
        i = i + 1;
    }
    None
}

/// The text under `key`, empty when absent or not text.
pub fn get_text(params: &Vec<(String, FieldValue)>, key: &str) -> (r: String)
    ensures
        r@ == text_param(params@, key@),
{
    match find_param(params, key) {
        Some(i) => match &params[i].1 {
            FieldValue::Text(s) => s.clone(),
            _ => String::new(),
        },
        None => String::new(),
    }
}

/// The integer under `key`, `default` when absent or not an integer.
pub fn get_int(params: &Vec<(String, FieldValue)>, key: &str, default: i64) -> (r: i64)
    ensures
        r == int_param(params@, key@, default),
{
    match find_param(params, key) {
        Some(i) => match &params[i].1 {
            FieldValue::Integer(v) => *v,
            _ => default,
        },
        None => default,
    }
}

/// Where a pointer action lands.
#[derive(Debug, Clone)]
pub enum ClickTarget {
    /// An accessibility element, looked up by automation id when one is
    /// given and by name otherwise.
    Element { automation_id: String, name: String },
    /// Explicit screen coordinates, in pixels.
    Point { x: i32, y: i32 },
}

/// A coordinate parameter in range: present, an integer, and between 0 and
/// `i32::MAX`.
pub open spec fn coord_ok(v: i64) -> bool {
    0 <= v <= i32::MAX
}

/// The target of a pointer action: the element named by `name` or
/// `automation_id` when either is non-empty, else the point `x`/`y` when both
/// are in range, else none.
pub open spec fn target_spec(params: Seq<(String, FieldValue)>) -> Option<(Seq<char>, Seq<char>, int, int)> {
    let name = text_param(params, "name"@);
    let aid = text_param(params, "automation_id"@);
    let x = int_param(params, "x"@, -1i64);
    let y = int_param(params, "y"@, -1i64);
    if name.len() > 0 || aid.len() > 0 {
        Some((aid, name, -1, -1))
    } else if coord_ok(x) && coord_ok(y) {
        Some((Seq::<char>::empty(), Seq::<char>::empty(), x as int, y as int))
    } else {
        None
    }
}

pub open spec fn target_matches(t: ClickTarget, s: (Seq<char>, Seq<char>, int, int)) -> bool {
    match t {
        ClickTarget::Element { automation_id, name } => s.2 == -1 && automation_id@ == s.0
            && name@ == s.1,
        ClickTarget::Point { x, y } => s.2 >= 0 && x == s.2 && y == s.3,
    }
}

/// Resolves the target of a click-like action from its parameters.
pub fn resolve_target(params: &Vec<(String, FieldValue)>) -> (r: Option<ClickTarget>)
    ensures
        match r {
            Some(t) => target_spec(params@) matches Some(s) && target_matches(t, s),
            None => target_spec(params@) is None,
        },
{
    let name = get_text(params, "name");
    let automation_id = get_text(params, "automation_id");
    if name.unicode_len() > 0 || automation_id.unicode_len() > 0 {
        return Some(ClickTarget::Element { automation_id, name });
    }
    let x = get_int(params, "x", -1);
    let y = get_int(params, "y", -1);
    if 0 <= x && x <= i32::MAX as i64 && 0 <= y && y <= i32::MAX as i64 {
        Some(ClickTarget::Point { x: x as i32, y: y as i32 })
    } else {
        None
    }
}

/// An input action that a validated command asks of the desktop.
#[derive(Debug, Clone)]
pub enum Action {
    Observe,
    Click(ClickTarget),
    /// `automation_id` is `Some` only when non-empty: then direct value
    /// assignment is tried before keystrokes. `units` are the UTF-16 code
    /// units typed one by one otherwise.
    TypeText { text: String, automation_id: Option<String>, units: Vec<u16> },
    SendKeys { keys: String, strokes: Vec<KeyStroke> },
    OpenApplication { application: String },
    FocusWindow { title: String, process: String },
    Scroll { direction: String, amount: i32, wheel_delta: i64 },
    DoubleClick(ClickTarget),
    RightClick(ClickTarget),
}

pub open spec fn requires_msg(action: Seq<char>) -> Seq<char> {
    action + " requires 'name', 'automation_id', or 'x'/'y' parameters"@
}

pub open spec fn is_pointer_action(a: Seq<char>) -> bool {
    a == "click"@ || a == "double_click"@ || a == "right_click"@
}

pub open spec fn is_known_action(a: Seq<char>) -> bool {
    a == "observe"@ || a == "click"@ || a == "type_text"@ || a == "send_keys"@ || a
        == "open_application"@ || a == "focus_window"@ || a == "scroll"@ || a == "double_click"@
        || a == "right_click"@
}

/// The scroll direction: the `direction` text, `down` when absent.
pub open spec fn direction_spec(params: Seq<(String, FieldValue)>) -> Seq<char> {
    match lookup(params, "direction"@) {
        Some(FieldValue::Text(s)) => s@,
        _ => "down"@,
    }
}

/// Why a command cannot be carried out, judged from the request alone; `None`
/// when it is well formed.
pub open spec fn plan_error(cmd: Command) -> Option<Seq<char>> {
    let a = cmd.action@;
    let p = cmd.parameters@;
    if !is_known_action(a) {
        Some("unknown action: "@ + a)
    } else if is_pointer_action(a) && target_spec(p) is None {
        Some(requires_msg(a))
    } else if a == "type_text"@ && text_param(p, "text"@).len() == 0 {
        Some("type_text requires 'text' parameter"@)
    } else if a == "send_keys"@ && text_param(p, "keys"@).len() == 0 {
        Some("send_keys requires 'keys' parameter"@)
    } else if a == "send_keys"@ && combo_key(split_plus(text_param(p, "keys"@))) is None {
        Some("unknown key: "@ + text_param(p, "keys"@))
    } else if a == "open_application"@ && text_param(p, "application"@).len() == 0 {
        Some("open_application requires 'application' parameter"@)
    } else if a == "focus_window"@ && text_param(p, "title"@).len() == 0 && text_param(
        p,
        "process"@,
    ).len() == 0 {
        Some("focus_window requires 'title' or 'process' parameter"@)
    } else if a == "scroll"@ && !(direction_spec(p) == "up"@ || direction_spec(p) == "down"@) {
        Some("unknown scroll direction: "@ + direction_spec(p))
    } else if a == "scroll"@ && !(i32::MIN <= int_param(p, "amount"@, 3i64) <= i32::MAX) {
        Some("scroll 'amount' out of range"@)
    } else {
        None
    }
}

/// What a well-formed command asks for.
pub open spec fn action_matches(cmd: Command, act: Action) -> bool {
    let a = cmd.action@;
    let p = cmd.parameters@;
    match act {
        Action::Observe => a == "observe"@,
        Action::Click(t) => a == "click"@ && target_matches(t, target_spec(p)->0),
        Action::DoubleClick(t) => a == "double_click"@ && target_matches(t, target_spec(p)->0),
        Action::RightClick(t) => a == "right_click"@ && target_matches(t, target_spec(p)->0),
        Action::TypeText { text, automation_id, units } => {
            &&& a == "type_text"@
            &&& text@ == text_param(p, "text"@)
            &&& units@ == utf16_encode(text@)
            &&& (automation_id is Some <==> text_param(p, "automation_id"@).len() > 0)
            &&& (automation_id matches Some(id) ==> id@ == text_param(p, "automation_id"@))
        },
        Action::SendKeys { keys, strokes } => {
            &&& a == "send_keys"@
            &&& keys@ == text_param(p, "keys"@)
            &&& strokes@ == stroke_plan(
                combo_modifiers(split_plus(keys@)),
                combo_key(split_plus(keys@))->0,
            )
        },
        Action::OpenApplication { application } => a == "open_application"@ && application@
            == text_param(p, "application"@),
        Action::FocusWindow { title, process } => a == "focus_window"@ && title@ == text_param(
            p,
            "title"@,
        ) && process@ == text_param(p, "process"@),
        Action::Scroll { direction, amount, wheel_delta } => {
            &&& a == "scroll"@
            &&& direction@ == direction_spec(p)
            &&& amount == int_param(p, "amount"@, 3i64)
            &&& wheel_delta == if direction@ == "up"@ {
                WHEEL_TICK * amount
            } else {
                -WHEEL_TICK * amount
            }
        },
    }
}

/// The action names are pairwise distinct: their lengths, and the first
/// letters of the two pairs of equal length.
proof fn lemma_action_names()
    ensures
        "observe"@.len() == 7,
        "click"@.len() == 5,
        "type_text"@.len() == 9,
        "send_keys"@.len() == 9,
        "open_application"@.len() == 16,
        "focus_window"@.len() == 12,
        "scroll"@.len() == 6,
        "double_click"@.len() == 12,
        "right_click"@.len() == 11,
        "type_text"@ != "send_keys"@,
        "focus_window"@ != "double_click"@,
{
    reveal_strlit("observe");
    reveal_strlit("click");
    reveal_strlit("open_application");
    reveal_strlit("scroll");
    reveal_strlit("right_click");
    reveal_strlit("type_text");
    reveal_strlit("send_keys");
    reveal_strlit("focus_window");
    reveal_strlit("double_click");
    assert("type_text"@[0] != "send_keys"@[0]);
    assert("focus_window"@[0] != "double_click"@[0]);
}

fn pointer_plan(cmd: &Command, kind: u8) -> (r: Result<Action, String>)
    requires
        kind == 0 ==> cmd.action@ == "click"@,
        kind == 1 ==> cmd.action@ == "double_click"@,
        kind == 2 ==> cmd.action@ == "right_click"@,
        kind <= 2,
    ensures
        plan_error(*cmd) matches Some(e) ==> (r matches Err(m) && m@ == e),
        plan_error(*cmd) is None ==> (r matches Ok(act) && action_matches(*cmd, act)),
{
    proof {
        lemma_action_names();
    }
    match resolve_target(&cmd.parameters) {
        Some(t) => {
            if kind == 0 {
                Ok(Action::Click(t))
            } else if kind == 1 {
                Ok(Action::DoubleClick(t))
            } else {
                Ok(Action::RightClick(t))
            }
        },
        None => {
            Err(join2(cmd.action.as_str(), " requires 'name', 'automation_id', or 'x'/'y' parameters"))
        },
    }
}

/// Validates a command and reads what it asks for. On `Err` the message says
/// which parameter is missing or unusable.
pub fn plan_command(cmd: &Command) -> (r: Result<Action, String>)
    ensures
        plan_error(*cmd) matches Some(e) ==> (r matches Err(m) && m@ == e),
        plan_error(*cmd) is None ==> (r matches Ok(act) && action_matches(*cmd, act)),
{
    proof {
        lemma_action_names();
    }
    let a = cmd.action.as_str();
    let p = &cmd.parameters;
    if str_eq(a, "observe") {
        Ok(Action::Observe)
    } else if str_eq(a, "click") {
        pointer_plan(cmd, 0)
    } else if str_eq(a, "double_click") {
        pointer_plan(cmd, 1)
    } else if str_eq(a, "right_click") {
        pointer_plan(cmd, 2)
    } else if str_eq(a, "type_text") {
        let text = get_text(p, "text");
        if text.unicode_len() == 0 {
            return Err(String::from_str("type_text requires 'text' parameter"));
        }
        let id = get_text(p, "automation_id");
        let automation_id = if id.unicode_len() > 0 { Some(id) } else { None };
        let units = utf16_units(text.as_str());
        Ok(Action::TypeText { text, automation_id, units })
    } else if str_eq(a, "send_keys") {
        let keys = get_text(p, "keys");
        if keys.unicode_len() == 0 {
            return Err(String::from_str("send_keys requires 'keys' parameter"));
        }
        match parse_key_combo(keys.as_str()) {
            Some(combo) => {
                let strokes = key_strokes(&combo);
                Ok(Action::SendKeys { keys, strokes })
            },
            None => Err(join2("unknown key: ", keys.as_str())),
        }
    } else if str_eq(a, "open_application") {
        let application = get_text(p, "application");
        if application.unicode_len() == 0 {
            return Err(String::from_str("open_application requires 'application' parameter"));
        }
        Ok(Action::OpenApplication { application })
    } else if str_eq(a, "focus_window") {
        let title = get_text(p, "title");
        let process = get_text(p, "process");
        if title.unicode_len() == 0 && process.unicode_len() == 0 {
            return Err(String::from_str("focus_window requires 'title' or 'process' parameter"));
        }
        Ok(Action::FocusWindow { title, process })
    } else if str_eq(a, "scroll") {
        let direction = match find_param(p, "direction") {
            Some(i) => match &p[i].1 {
                FieldValue::Text(s) => s.clone(),
                _ => String::from_str("down"),
            },
            None => String::from_str("down"),
        };
        let up = str_eq(direction.as_str(), "up");
        if !up && !str_eq(direction.as_str(), "down") {
            return Err(join2("unknown scroll direction: ", direction.as_str()));
        }
        let amount = get_int(p, "amount", 3);
        if amount < i32::MIN as i64 || amount > i32::MAX as i64 {
            return Err(String::from_str("scroll 'amount' out of range"));
        }
        assert(-2000000000000i64 <= WHEEL_TICK * amount <= 2000000000000i64
            && -2000000000000i64 <= -WHEEL_TICK * amount <= 2000000000000i64) by (nonlinear_arith)
            requires
                i32::MIN <= amount <= i32::MAX,
        ;
        let wheel_delta = if up { WHEEL_TICK * amount } else { -WHEEL_TICK * amount };
        Ok(Action::Scroll { direction, amount: amount as i32, wheel_delta })
    } else {
        Err(join2("unknown action: ", a))
    }
}

/// The reply to a command.
#[derive(Debug, Clone)]
pub struct CommandResult {
    pub msg_type: String,
    pub command_id: String,
    pub ok: bool,
    pub result: Vec<(String, FieldValue)>,
    pub screenshot_b64: Option<String>,
    pub uia: Option<UiaSnapshot>,
    pub error: Option<String>,
}

impl CommandResult {
    pub fn success(command_id: &str, result: Vec<(String, FieldValue)>) -> (r: CommandResult)
        ensures
            r.msg_type@ == "command_result"@,
            r.command_id@ == command_id@,
            r.ok,
            r.result == result,
            r.screenshot_b64 is None,
            r.uia is None,
            r.error is None,
    {
        CommandResult {
            msg_type: String::from_str("command_result"),
            command_id: String::from_str(command_id),
            ok: true,
            result,
            screenshot_b64: None,
            uia: None,
            error: None,
        }
    }

    pub fn failure(command_id: &str, error: &str) -> (r: CommandResult)
        ensures
            r.msg_type@ == "command_result"@,
            r.command_id@ == command_id@,
            !r.ok,
            r.result@.len() == 0,
            r.screenshot_b64 is None,
            r.uia is None,
            r.error matches Some(e) && e@ == error@,
    {
        CommandResult {
            msg_type: String::from_str("command_result"),
            command_id: String::from_str(command_id),
            ok: false,
            result: Vec::new(),
            screenshot_b64: None,
            uia: None,
            error: Some(String::from_str(error)),
        }
    }
}

/// Why a command fails on a desktop without the automation interfaces: an
/// unknown action or a click without a target is reported as such, every
/// other action as unsupported here.
pub open spec fn unsupported_error(cmd: Command) -> Seq<char> {
    let a = cmd.action@;
    if !is_known_action(a) {
        "unknown action: "@ + a
    } else if a == "click"@ && target_spec(cmd.parameters@) is None {
        requires_msg(a)
    } else {
        a + " requires Windows"@
    }
}

/// A command with an action name outside the dispatch table fails, and its
/// message names it an unknown action.
pub proof fn lemma_unknown_action(cmd: Command)
    requires
        !is_known_action(cmd.action@),
    ensures
        unsupported_error(cmd) == "unknown action: "@ + cmd.action@,
        plan_error(cmd) == Some("unknown action: "@ + cmd.action@),
{
}

/// A click with none of `name`, `automation_id`, `x`, `y` fails, and its
/// message lists those parameters.
pub proof fn lemma_click_without_target(cmd: Command)
    requires
        cmd.action@ == "click"@,
        lookup(cmd.parameters@, "name"@) is None,
        lookup(cmd.parameters@, "automation_id"@) is None,
        lookup(cmd.parameters@, "x"@) is None,
        lookup(cmd.parameters@, "y"@) is None,
    ensures
        unsupported_error(cmd) == "click requires 'name', 'automation_id', or 'x'/'y' parameters"@,
        plan_error(cmd) == Some("click requires 'name', 'automation_id', or 'x'/'y' parameters"@),
{
    lemma_action_names();
    reveal_strlit("click requires 'name', 'automation_id', or 'x'/'y' parameters");
    reveal_strlit(" requires 'name', 'automation_id', or 'x'/'y' parameters");
    reveal_strlit("click");
    assert(requires_msg("click"@) =~= "click requires 'name', 'automation_id', or 'x'/'y' parameters"@);
}

/// Runs a command on a desktop that offers no automation interfaces: every
/// command fails, with a message that says why.
pub fn execute_command(cmd: &Command, _config: &Config) -> (r: CommandResult)
    ensures
        r.msg_type@ == "command_result"@,
        r.command_id == cmd.command_id,
        !r.ok,
        r.result@.len() == 0,
        r.screenshot_b64 is None,
        r.uia is None,
        r.error matches Some(e) && e@ == unsupported_error(*cmd),
{
    proof {
        lemma_action_names();
    }
    let a = cmd.action.as_str();
    let msg = if str_eq(a, "click") {
        match resolve_target(&cmd.parameters) {
            Some(_) => join2(a, " requires Windows"),
            None => join2(a, " requires 'name', 'automation_id', or 'x'/'y' parameters"),
        }
    } else if str_eq(a, "observe") || str_eq(a, "type_text") || str_eq(a, "send_keys") || str_eq(
        a,
        "open_application",
    ) || str_eq(a, "focus_window") || str_eq(a, "scroll") || str_eq(a, "double_click")
        || str_eq(a, "right_click") {
        join2(a, " requires Windows")
    } else {
        join2("unknown action: ", a)
    };
    let r = CommandResult::failure(a, msg.as_str());
    CommandResult { command_id: cmd.command_id.clone(), ..r }
}

/// What the desktop reported after carrying out an action.
#[derive(Debug, Clone)]
pub enum Outcome {
    /// The foreground window's title and process image path, and the
    /// accessibility snapshot if one was taken.
    Observed { window_title: String, process_exe: String, uia: Option<UiaSnapshot> },
    /// The element's invoke capability was used.
    Invoked,
    /// A pointer action landed at this screen point.
    PointedAt { x: i32, y: i32 },
    /// The text was assigned directly to the element's value.
    ValueSet,
    /// The action was carried out by synthesized input.
    Done,
}

pub open spec fn text_value(v: FieldValue, t: Seq<char>) -> bool {
    v matches FieldValue::Text(s) && s@ == t
}

/// The label of an element target: its name, or its automation id when it
/// has no name.
pub open spec fn target_label(automation_id: Seq<char>, name: Seq<char>) -> Seq<char> {
    if name.len() > 0 { name } else { automation_id }
}

fn text_entry(key: &str, v: &str) -> (r: (String, FieldValue))
    ensures
        r.0@ == key@,
        text_value(r.1, v@),
{
    (String::from_str(key), FieldValue::Text(String::from_str(v)))
}

fn int_entry(key: &str, v: i64) -> (r: (String, FieldValue))
    ensures
        r.0@ == key@,
        r.1 == FieldValue::Integer(v),
{
    (String::from_str(key), FieldValue::Integer(v))
}

/// The result fields reported for an action and what the desktop did.
pub open spec fn result_fields_ok(act: Action, out: Outcome, r: Seq<(String, FieldValue)>) -> bool {
    match (act, out) {
        (Action::Observe, Outcome::Observed { window_title, process_exe, uia }) => {
            &&& r.len() == 3
            &&& r[0].0@ == "action"@ && text_value(r[0].1, "observe"@)
            &&& r[1].0@ == "window_title"@ && text_value(r[1].1, window_title@)
            &&& r[2].0@ == "process_exe"@ && text_value(r[2].1, process_exe@)
        },
        (Action::Click(ClickTarget::Point { x, y }), _) => {
            &&& r.len() == 3
            &&& r[0].0@ == "x"@ && r[0].1 == FieldValue::Integer(x as i64)
            &&& r[1].0@ == "y"@ && r[1].1 == FieldValue::Integer(y as i64)
            &&& r[2].0@ == "method"@ && text_value(r[2].1, "coordinate"@)
        },
        (Action::Click(ClickTarget::Element { automation_id, name }), Outcome::PointedAt { x, y }) => {
            &&& r.len() == 4
            &&& r[0].0@ == "clicked"@ && text_value(r[0].1, target_label(automation_id@, name@))
            &&& r[1].0@ == "method"@ && text_value(r[1].1, "coordinate"@)
            &&& r[2].0@ == "x"@ && r[2].1 == FieldValue::Integer(x as i64)
            &&& r[3].0@ == "y"@ && r[3].1 == FieldValue::Integer(y as i64)
        },
        (Action::Click(ClickTarget::Element { automation_id, name }), _) => {
            &&& r.len() == 2
            &&& r[0].0@ == "clicked"@ && text_value(r[0].1, target_label(automation_id@, name@))
            &&& r[1].0@ == "method"@ && text_value(r[1].1, "invoke"@)
        },
        (Action::TypeText { text, automation_id, .. }, Outcome::ValueSet) => {
            &&& r.len() == 3
            &&& r[0].0@ == "typed"@ && text_value(r[0].1, text@)
            &&& r[1].0@ == "method"@ && text_value(r[1].1, "value_pattern"@)
            &&& r[2].0@ == "target"@ && text_value(
                r[2].1,
                match automation_id {
                    Some(id) => id@,
                    None => Seq::<char>::empty(),
                },
            )
        },
        (Action::TypeText { text, .. }, _) => {
            &&& r.len() == 2
            &&& r[0].0@ == "typed"@ && text_value(r[0].1, text@)
            &&& r[1].0@ == "method"@ && text_value(r[1].1, "send_input"@)
        },
        (Action::SendKeys { keys, strokes }, _) => r.len() == 1 && r[0].0@ == "keys"@ && text_value(r[0].1, keys@),
        (Action::OpenApplication { application }, _) => r.len() == 1 && r[0].0@ == "started"@ && text_value(
            r[0].1,
            application@,
        ),
        (Action::FocusWindow { title, process }, _) => r.len() == 1 && r[0].0@ == "focused"@ && text_value(
            r[0].1,
            title@,
        ),
        (Action::Scroll { direction, amount, wheel_delta }, _) => {
            &&& r.len() == 2
            &&& r[0].0@ == "direction"@ && text_value(r[0].1, direction@)
            &&& r[1].0@ == "amount"@ && r[1].1 == FieldValue::Integer(amount as i64)
        },
        (Action::DoubleClick(_), Outcome::PointedAt { x, y }) | (Action::RightClick(_), Outcome::PointedAt { x, y }) => {
            &&& r.len() == 2
            &&& r[0].0@ == "x"@ && r[0].1 == FieldValue::Integer(x as i64)
            &&& r[1].0@ == "y"@ && r[1].1 == FieldValue::Integer(y as i64)
        },
        _ => r.len() == 0,
    }
}

/// The successful reply to a command: the fields that describe what was
/// done, the post-action screenshot if one was taken, and for an
/// observation its accessibility snapshot.
pub fn success_result(command_id: &str, act: &Action, out: Outcome, screenshot_b64: Option<String>) -> (r: CommandResult)
    ensures
        r.msg_type@ == "command_result"@,
        r.command_id@ == command_id@,
        r.ok,
        r.error is None,
        r.screenshot_b64 == screenshot_b64,
        result_fields_ok(*act, out, r.result@),
        r.uia == match (act, out) {
            (Action::Observe, Outcome::Observed { uia, .. }) => uia,
            _ => None::<UiaSnapshot>,
        },
{
    let mut fields: Vec<(String, FieldValue)> = Vec::new();
    let mut uia: Option<UiaSnapshot> = None;
    match (act, out) {
        (Action::Observe, Outcome::Observed { window_title, process_exe, uia: snap }) => {
            fields.push(text_entry("action", "observe"));
            fields.push(text_entry("window_title", window_title.as_str()));
            fields.push(text_entry("process_exe", process_exe.as_str()));
            uia = snap;
        },
        (Action::Click(ClickTarget::Point { x, y }), _) => {
            fields.push(int_entry("x", *x as i64));
            fields.push(int_entry("y", *y as i64));
            fields.push(text_entry("method", "coordinate"));
        },
        (Action::Click(ClickTarget::Element { automation_id, name }), Outcome::PointedAt { x, y }) => {
            let label = if name.unicode_len() > 0 { name.as_str() } else { automation_id.as_str() };
            fields.push(text_entry("clicked", label));
            fields.push(text_entry("method", "coordinate"));
            fields.push(int_entry("x", x as i64));
            fields.push(int_entry("y", y as i64));
        },
        (Action::Click(ClickTarget::Element { automation_id, name }), _) => {
            let label = if name.unicode_len() > 0 { name.as_str() } else { automation_id.as_str() };
            fields.push(text_entry("clicked", label));
            fields.push(text_entry("method", "invoke"));
        },
        (Action::TypeText { text, automation_id, .. }, Outcome::ValueSet) => {
            fields.push(text_entry("typed", text.as_str()));
            fields.push(text_entry("method", "value_pattern"));
            match automation_id {
                Some(id) => fields.push(text_entry("target", id.as_str())),
                None => fields.push((String::from_str("target"), FieldValue::Text(String::new()))),
            }
        },
        (Action::TypeText { text, .. }, _) => {
            fields.push(text_entry("typed", text.as_str()));
            fields.push(text_entry("method", "send_input"));
        },
        (Action::SendKeys { keys, .. }, _) => {
            fields.push(text_entry("keys", keys.as_str()));
        },
        (Action::OpenApplication { application }, _) => {
            fields.push(text_entry("started", application.as_str()));
        },
        (Action::FocusWindow { title, .. }, _) => {
            fields.push(text_entry("focused", title.as_str()));
        },
        (Action::Scroll { direction, amount, .. }, _) => {
            fields.push(text_entry("direction", direction.as_str()));
            fields.push(int_entry("amount", *amount as i64));
        },
        (Action::DoubleClick(_), Outcome::PointedAt { x, y }) | (Action::RightClick(_), Outcome::PointedAt { x, y }) => {
            fields.push(int_entry("x", x as i64));
            fields.push(int_entry("y", y as i64));
        },
        _ => {},
    }
    let r = CommandResult::success(command_id, fields);
    CommandResult { screenshot_b64, uia, ..r }
}

/// `x * 65535 / extent`: a screen coordinate in the absolute units of
/// synthesized pointer input; `None` when the screen extent is not positive.
pub fn normalize_coordinate(v: i32, extent: i32) -> (r: Option<i64>)
    ensures
        extent <= 0 ==> r is None,
        extent > 0 ==> r == Some(norm_spec(v, extent)),
        extent > 0 && v >= 0 ==> r == Some((v * 65535 / (extent as int)) as i64),
        extent > 0 && v < 0 ==> r == Some((-((-v) * 65535 / (extent as int))) as i64),
{
    if extent <= 0 {
        return None;
    }
    let n = v as i64 * 65535;
    if n >= 0 {
        Some(n / extent as i64)
    } else {
        Some(-((-n) / extent as i64))
    }
}

/// `v * 65535 / extent`, rounded toward zero.
pub open spec fn norm_spec(v: i32, extent: i32) -> i64 {
    if v >= 0 {
        (v * 65535 / (extent as int)) as i64
    } else {
        (-((-v) * 65535 / (extent as int))) as i64
    }
}

/// A pointer action on a screen point.
#[derive(Debug, Clone, Copy, PartialEq, Eq, Structural)]
pub enum PointerKind {
    Click,
    DoubleClick,
    RightClick,
}

#[derive(Debug, Clone, Copy, PartialEq, Eq, Structural)]
pub enum Button {
    Left,
    Right,
}

/// One synthesized pointer input: an absolute move to `(x, y)` (in the
/// absolute units of pointer input) together with a button press or
/// release.
#[derive(Debug, Clone, Copy, PartialEq, Eq, Structural)]
pub struct PointerEvent {
    pub x: i64,
    pub y: i64,
    pub button: Button,
    pub down: bool,
}

/// The inputs of a pointer action at absolute point `(x, y)`: a left press
/// and release for a click, two of them for a double click, a right press
/// and release for a right click.
pub open spec fn pointer_plan_spec(kind: PointerKind, x: i64, y: i64) -> Seq<PointerEvent> {
    let press = |b: Button| PointerEvent { x, y, button: b, down: true };
    let release = |b: Button| PointerEvent { x, y, button: b, down: false };
    match kind {
        PointerKind::Click => seq![press(Button::Left), release(Button::Left)],
        PointerKind::DoubleClick => seq![
            press(Button::Left),
            release(Button::Left),
            press(Button::Left),
            release(Button::Left),
        ],
        PointerKind::RightClick => seq![press(Button::Right), release(Button::Right)],
    }
}

/// The inputs that carry out a pointer action at screen pixel `(x, y)` on a
/// `screen_w` x `screen_h` screen; `None` when a screen side is not
/// positive.
pub fn pointer_events(kind: PointerKind, x: i32, y: i32, screen_w: i32, screen_h: i32) -> (r: Option<Vec<PointerEvent>>)
    ensures
        (screen_w <= 0 || screen_h <= 0) ==> r is None,
        (screen_w > 0 && screen_h > 0) ==> (r matches Some(v) && v@ == pointer_plan_spec(
            kind,
            norm_spec(x, screen_w),
            norm_spec(y, screen_h),
        )),
{
    let nx = match normalize_coordinate(x, screen_w) {
        Some(v) => v,
        None => return None,
    };
    let ny = match normalize_coordinate(y, screen_h) {
        Some(v) => v,
        None => return None,
    };
    let button = match kind {
        PointerKind::RightClick => Button::Right,
        _ => Button::Left,
    };
    let mut out: Vec<PointerEvent> = Vec::new();
    out.push(PointerEvent { x: nx, y: ny, button, down: true });
    out.push(PointerEvent { x: nx, y: ny, button, down: false });
    match kind {
        PointerKind::DoubleClick => {
            out.push(PointerEvent { x: nx, y: ny, button, down: true });
            out.push(PointerEvent { x: nx, y: ny, button, down: false });
        },
        _ => {},
    }
    assert(out@ =~= pointer_plan_spec(kind, nx, ny));
    Some(out)
}

/// Half of `s`, rounded toward zero.
pub open spec fn half_toward_zero(s: int) -> int {
    if s >= 0 { s / 2 } else { -((-s) / 2) }
}

/// The centre of a rectangle given by its edges, each coordinate the
/// midpoint of two edges rounded toward zero.
pub fn rect_center(left: i32, top: i32, right: i32, bottom: i32) -> (r: (i32, i32))
    ensures
        r.0 as int == half_toward_zero(left + right),
        r.1 as int == half_toward_zero(top + bottom),
{
    let sx = left as i64 + right as i64;
    let sy = top as i64 + bottom as i64;
    let cx = if sx >= 0 { sx / 2 } else { -((-sx) / 2) };
    let cy = if sy >= 0 { sy / 2 } else { -((-sy) / 2) };
    (cx as i32, cy as i32)
}

/// `needle` occurs in `hay` as a run of consecutive characters.
pub open spec fn contains_seq(hay: Seq<char>, needle: Seq<char>) -> bool {
    exists|i: int| 0 <= i <= hay.len() - needle.len() && #[trigger] hay.subrange(i, i + needle.len()) == needle
}

fn contains_chars(hay: &Vec<char>, needle: &Vec<char>) -> (r: bool)
    ensures
        r == contains_seq(hay@, needle@),
{
    let n = hay.len();
    let m = needle.len();
    if m > n {
        return false;
    }
    let mut i: usize = 0;
    while i <= n - m
        invariant
            m <= n,
            n == hay@.len(),
            m == needle@.len(),
            i <= n - m + 1,
            forall|k: int| 0 <= k < i ==> #[trigger] hay@.subrange(k, k + m) != needle@,
        decreases n - m + 1 - i,
    {
        let mut j: usize = 0;
        while j < m && hay[i + j] == needle[j]
            invariant
                j <= m,
                i + m <= n,
                n == hay@.len(),
                m == needle@.len(),
                hay@.subrange(i as int, i + j) == needle@.subrange(0, j as int),
            decreases m - j,
        {
            assert(hay@.subrange(i as int, i + j + 1) =~= hay@.subrange(i as int, i + j).push(hay@[i + j]));
            assert(needle@.subrange(0, j + 1) =~= needle@.subrange(0, j as int).push(needle@[j as int]));
            j = j + 1;
        }
        if j == m {
            assert(needle@.subrange(0, m as int) =~= needle@);
            return true;
        }
        assert(hay@.subrange(i as int, i + m)[j as int] != needle@[j as int]);
        i = i + 1;
    }
    assert forall|k: int| 0 <= k <= n - m implies #[trigger] hay@.subrange(k, k + m) != needle@ by {}
    false
}

/// The first window that is visible and whose title contains the pattern,
/// letter case aside.
pub open spec fn window_match(windows: Seq<(String, bool)>, pattern: Seq<char>, i: int) -> bool {
    windows[i].1 && contains_seq(lower_of(windows[i].0@), lower_of(pattern))
}

/// Finds, in enumeration order, the first visible window whose title
/// contains `pattern` without regard to letter case.
pub fn find_window(windows: &Vec<(String, bool)>, pattern: &str) -> (r: Option<usize>)
    ensures
        match r {
            Some(i) => i < windows@.len() && window_match(windows@, pattern@, i as int) && forall|k: int|
                0 <= k < i ==> !window_match(windows@, pattern@, k),
            None => forall|k: int| 0 <= k < windows@.len() ==> !window_match(windows@, pattern@, k),
        },
{
    let p = lowercase_chars(&chars_of(pattern));
    let mut i: usize = 0;
    while i < windows.len()
        invariant
            i <= windows@.len(),
            p@ == lower_of(pattern@),
            forall|k: int| 0 <= k < i ==> !window_match(windows@, pattern@, k),
        decreases windows@.len() - i,
    {
        if windows[i].1 {
            let t = lowercase_chars(&chars_of(windows[i].0.as_str()));
            if contains_chars(&t, &p) {
                return Some(i);
            }
        }
        i = i + 1;
    }
    None
}

} // verus!
