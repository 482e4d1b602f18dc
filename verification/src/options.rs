//! The options of the editor: `get`, `set` and `toggle`.
use vstd::prelude::*;

use crate::args;
use crate::args::{Args, ArgsView, PromptEvent};
use crate::buffers;
use crate::plan;
use crate::plan::{Action, Course, Op, Plan, PlanView, StepView};
use crate::text;

verus! {

/// A JSON value.
#[verifier::external_type_specification]
#[verifier::external_body]
pub struct ExValue(serde_json::Value);

/// What stands at one place of a JSON value. `S` stands for a text.
#[derive(Debug, PartialEq, Eq)]
pub enum Json<S> {
    /// Nothing.
    Null,
    /// A truth value.
    Bool(bool),
    /// A number, as it is written.
    Number(S),
    /// A text.
    Text(S),
    /// A list, whose items stand at places of their own.
    Array,
    /// An object, whose members stand at places of their own.
    Object,
}

/// The places of a JSON value and what stands there. A place is named by a JSON pointer; the
/// whole stands at the empty one.
pub type Places = Map<Seq<char>, Json<Seq<char>>>;

/// What a JSON value holds: for each JSON pointer that leads somewhere, what stands there.
pub uninterp spec fn contents(value: serde_json::Value) -> Map<Seq<char>, Json<Seq<char>>>;

/// Whether a pointer can follow another: it is empty or begins with a slash.
pub open spec fn goes_on(pointer: Seq<char>) -> bool {
    pointer.len() == 0 || pointer[0] == '/'
}

/// What stands at a place and within it, seen from there.
pub open spec fn subtree(places: Places, place: Seq<char>) -> Places {
    Map::new(
        |q: Seq<char>| goes_on(q) && places.contains_key(place + q),
        |q: Seq<char>| places[place + q],
    )
}

/// Where the first token of a pointer ends: before its second slash, or at its end.
pub open spec fn token_end(pointer: Seq<char>) -> int
    decreases pointer.len(),
{
    if pointer.len() <= 1 || pointer[1] == '/' {
        1
    } else {
        1 + token_end(pointer.skip(1))
    }
}

/// A text with every tilde before a mark, and that mark, replaced by a character.
pub open spec fn resolved(text: Seq<char>, mark: char, by: char) -> Seq<char>
    decreases text.len(),
{
    if text.len() < 2 {
        text
    } else if text[0] == '~' && text[1] == mark {
        seq![by] + resolved(text.skip(2), mark, by)
    } else {
        seq![text[0]] + resolved(text.skip(1), mark, by)
    }
}

/// The tokens that a pointer leads along. In a token `~1` stands for a slash and `~0` for a tilde.
pub open spec fn tokens(pointer: Seq<char>) -> Seq<Seq<char>>
    decreases pointer.len(),
{
    if pointer.len() == 0 {
        Seq::empty()
    } else {
        let end = token_end(pointer);
        let token = resolved(resolved(pointer.subrange(1, end), '1', '/'), '0', '~');
        if 1 <= end <= pointer.len() {
            seq![token] + tokens(pointer.skip(end))
        } else {
            seq![token]
        }
    }
}

/// What a pointer is without its first tokens.
pub open spec fn beyond(pointer: Seq<char>, n: nat) -> Seq<char>
    decreases n,
{
    if n == 0 {
        pointer
    } else {
        beyond(pointer.skip(token_end(pointer)), (n - 1) as nat)
    }
}

/// Whether a pointer leads to a place or to one within it.
pub open spec fn within(place: Seq<char>, pointer: Seq<char>) -> bool {
    goes_on(pointer) && tokens(place).is_prefix_of(tokens(pointer))
}

/// The places with what stands at one of them replaced.
pub open spec fn written(places: Places, place: Seq<char>, part: Places) -> Places {
    let depth = tokens(place).len();
    Map::new(
        |q: Seq<char>|
            if within(place, q) {
                part.contains_key(beyond(q, depth))
            } else {
                places.contains_key(q)
            },
        |q: Seq<char>|
            if within(place, q) {
                part[beyond(q, depth)]
            } else {
                places[q]
            },
    )
}

/// `Value::pointer` gives what stands at the place that the pointer names, if it leads
/// somewhere.
pub assume_specification<'a, 'b>[ serde_json::Value::pointer ](
    value: &'a serde_json::Value,
    pointer: &'b str,
) -> (r: Option<&'a serde_json::Value>)
    ensures
        match r {
            Some(part) => contents(*value).contains_key(pointer@) && contents(*part) == subtree(
                contents(*value),
                pointer@,
            ),
            None => !contents(*value).contains_key(pointer@),
        },
;

/// `Value::pointer_mut` gives access to what stands at the place that the pointer names, if it
/// leads somewhere. What is put there stands there afterwards, and nothing changes at other
/// places. Putting back what stood there would leave the value as it was.
pub assume_specification<'a, 'b>[ serde_json::Value::pointer_mut ](
    value: &'a mut serde_json::Value,
    pointer: &'b str,
) -> (r: Option<&'a mut serde_json::Value>)
    ensures
        match r {
            Some(part) => {
                &&& contents(*old(value)).contains_key(pointer@)
                &&& contents(*part) == subtree(contents(*old(value)), pointer@)
                &&& contents(*final(value)) == written(
                    contents(*old(value)),
                    pointer@,
                    contents(*final(part)),
                )
                &&& contents(*final(value)).contains_key(pointer@)
                &&& subtree(contents(*final(value)), pointer@) == contents(*final(part))
                &&& written(contents(*old(value)), pointer@, contents(*part)) == contents(
                    *old(value),
                )
            },
            None => !contents(*old(value)).contains_key(pointer@) && *final(value) == *old(value),
        },
;

impl View for Json<String> {
    type V = Json<Seq<char>>;

    open spec fn view(&self) -> Json<Seq<char>> {
        match *self {
            Json::Null => Json::Null,
            Json::Bool(b) => Json::Bool(b),
            Json::Number(n) => Json::Number(n@),
            Json::Text(t) => Json::Text(t@),
            Json::Array => Json::Array,
            Json::Object => Json::Object,
        }
    }
}

/// The places of a value that has nothing within it.
pub open spec fn single(entry: Json<Seq<char>>) -> Places {
    map![Seq::empty() => entry]
}

/// Whether something can stand within a value.
pub open spec fn is_nested(entry: Json<Seq<char>>) -> bool {
    entry is Array || entry is Object
}

/// Tells the variants of `Value` apart. A number is written by its `Display`. Only lists and
/// objects have something within them.
#[verifier::external_body]
fn shape(value: &serde_json::Value) -> (r: Json<String>)
    ensures
        contents(*value).contains_pair(Seq::empty(), r@),
        !is_nested(r@) ==> contents(*value) == single(r@),
{
    match value {
        serde_json::Value::Null => Json::Null,
        serde_json::Value::Bool(b) => Json::Bool(*b),
        serde_json::Value::Number(n) => Json::Number(n.to_string()),
        serde_json::Value::String(t) => Json::Text(t.clone()),
        serde_json::Value::Array(_) => Json::Array,
        serde_json::Value::Object(_) => Json::Object,
    }
}

/// Makes a `Value` of a truth value.
#[verifier::external_body]
fn bool_value(b: bool) -> (r: serde_json::Value)
    ensures
        contents(r) == single(Json::Bool(b)),
{
    serde_json::Value::Bool(b)
}

/// Makes a `Value` of a text.
#[verifier::external_body]
fn text_value(text: &str) -> (r: serde_json::Value)
    ensures
        contents(r) == single(Json::Text(text@)),
{
    serde_json::Value::String(text.to_owned())
}

/// A JSON value as the `Display` of `Value` writes it.
pub uninterp spec fn json_text(places: Map<Seq<char>, Json<Seq<char>>>) -> Seq<char>;

/// Writes a `Value` by its `Display`. The result is a function of what the value holds and is
/// named [`json_text`].
#[verifier::external_body]
fn text_of(value: &serde_json::Value) -> (r: String)
    ensures
        r@ == json_text(contents(*value)),
{
    value.to_string()
}

/// What reading a value gave: what the value holds, or the text of the error.
pub open spec fn reading(read: Result<serde_json::Value, String>) -> Result<Places, Seq<char>> {
    match read {
        Ok(value) => Ok(contents(value)),
        Err(error) => Err(error@),
    }
}

/// What the `FromStr` of `Value` reads: what the value holds, or the text of the error.
pub uninterp spec fn parsed_json(text: Seq<char>) -> Result<
    Map<Seq<char>, Json<Seq<char>>>,
    Seq<char>,
>;

/// Reads a text by the `FromStr` of `Value`. The result is a function of the text and is named
/// [`parsed_json`].
#[verifier::external_body]
fn parse_json(text: &str) -> (r: Result<serde_json::Value, String>)
    ensures
        reading(r) == parsed_json(text@),
{
    text.parse::<serde_json::Value>().map_err(|e| e.to_string())
}

/// What the `FromStr` of `Number` reads: the number as its `Display` writes it, or the text of
/// the error.
pub uninterp spec fn parsed_number(text: Seq<char>) -> Result<Seq<char>, Seq<char>>;

/// The number read, as a value.
pub open spec fn number_reading(number: Result<Seq<char>, Seq<char>>) -> Result<
    Places,
    Seq<char>,
> {
    match number {
        Ok(n) => Ok(single(Json::Number(n))),
        Err(error) => Err(error),
    }
}

/// Reads a text by the `FromStr` of `Number`. The result is a function of the text and is named
/// [`parsed_number`].
#[verifier::external_body]
fn parse_number(text: &str) -> (r: Result<serde_json::Value, String>)
    ensures
        reading(r) == number_reading(parsed_number(text@)),
{
    text.parse::<serde_json::Number>().map(serde_json::Value::Number).map_err(|e| e.to_string())
}

/// What the iterator over the values of a text, a `StreamDeserializer`, gives at its n-th call:
/// what the value holds, or the text of the error, or nothing.
pub uninterp spec fn stream_item(text: Seq<char>, n: nat) -> Option<
    Result<Map<Seq<char>, Json<Seq<char>>>, Seq<char>>,
>;

/// What reading a value gave, if there was one.
pub open spec fn maybe_reading(read: Option<Result<serde_json::Value, String>>) -> Option<
    Result<Places, Seq<char>>,
> {
    match read {
        Some(result) => Some(reading(result)),
        None => None,
    }
}

/// Calls `Deserializer::into_iter` on a text and takes what its first two `next` give. That is
/// a function of the text and is named [`stream_item`].
#[verifier::external_body]
fn first_two(text: &str) -> (r: (
    Option<Result<serde_json::Value, String>>,
    Option<Result<serde_json::Value, String>>,
))
    ensures
        maybe_reading(r.0) == stream_item(text@, 0),
        maybe_reading(r.1) == stream_item(text@, 1),
{
    let mut values = serde_json::Deserializer::from_str(text).into_iter::<serde_json::Value>();
    let first = values.next().map(|v| v.map_err(|e| e.to_string()));
    let second = values.next().map(|v| v.map_err(|e| e.to_string()));
    (first, second)
}

/// Whether a number is the zero of the floating-point numbers, of either sign, as it is written.
pub open spec fn is_float_zero(number: Seq<char>) -> bool {
    number == "0.0"@ || number == "-0.0"@
}

/// Whether the same stands at two places. The two zeros of the floating-point numbers are the
/// same.
pub open spec fn same_entry(a: Json<Seq<char>>, b: Json<Seq<char>>) -> bool {
    a == b || (a is Number && b is Number && is_float_zero(a->Number_0) && is_float_zero(
        b->Number_0,
    ))
}

/// Whether two values are the same.
pub open spec fn same_places(a: Places, b: Places) -> bool {
    a.dom() == b.dom() && forall|p: Seq<char>| #[trigger]
        a.contains_key(p) ==> same_entry(a[p], b[p])
}

/// Compares by the `==` of `Value`: the values have the same places, and the same stands at
/// each of them.
#[verifier::external_body]
fn same(a: &serde_json::Value, b: &serde_json::Value) -> (r: bool)
    ensures
        r == same_places(contents(*a), contents(*b)),
{
    a == b
}

/// The name of the option that a command is about: its next argument, in lower case.
pub open spec fn option_key(args: ArgsView) -> Seq<char> {
    text::lowercased(args.next()->0)
}

/// The place of an option. The dots in its name lead to nested options.
pub open spec fn option_pointer(key: Seq<char>) -> Seq<char> {
    seq!['/'] + text::char_replaced(key, '.', '/')
}

fn pointer_to(key: &str) -> (r: String)
    ensures
        r@ == option_pointer(key@),
{
    let mut pointer = String::new();
    pointer.push('/');
    pointer.append(text::replace_char(key, '.', '/').as_str());
    assert(pointer@ =~= option_pointer(key@));
    pointer
}

/// The error for an option that there is not.
pub open spec fn unknown_key(key: Seq<char>) -> Seq<char> {
    "Unknown key `"@ + key + "`"@
}

fn unknown_key_error(key: &str) -> (r: String)
    ensures
        r@ == unknown_key(key@),
{
    let mut message = "Unknown key `".to_owned();
    message.append(key);
    message.append("`");
    message
}

/// What `get-option` does.
pub open spec fn get_plan(places: Places, args: ArgsView, event: PromptEvent) -> PlanView {
    buffers::on_validate(
        event,
        if args.words.len() != 1 {
            PlanView::failing("Bad arguments. Usage: `:get key`"@)
        } else {
            let key = option_key(args);
            let pointer = option_pointer(key);
            if places.contains_key(pointer) {
                PlanView::status(json_text(subtree(places, pointer)))
            } else {
                PlanView::failing(unknown_key(key))
            }
        },
    )
}

/// Shows the value of an option.
pub fn get_option(options: &serde_json::Value, args: Args, event: PromptEvent) -> (r: Plan)
    requires
        args@.taken == 0,
    ensures
        r@ == get_plan(contents(*options), args@, event),
{
    if event != PromptEvent::Validate {
        return Plan::nothing();
    }
    if args.arg_count() != 1 {
        return Plan::failing("Bad arguments. Usage: `:get key`");
    }
    let mut args = args;
    match args.next() {
        Some(arg) => {
            let key = text::to_lowercase(arg.as_str());
            let pointer = pointer_to(key.as_str());
            match options.pointer(pointer.as_str()) {
                Some(value) => Plan::status(text_of(value).as_str()),
                None => Plan::failing(unknown_key_error(key.as_str()).as_str()),
            }
        },
        None => Plan::nothing(),
    }
}

/// The message about an option that has been given a value.
pub open spec fn now_set(key: Seq<char>, value: Seq<char>) -> Seq<char> {
    "'"@ + key + "' is now set to "@ + value
}

fn now_set_message(key: &str, value: &str) -> (r: String)
    ensures
        r@ == now_set(key@, value@),
{
    let mut message = "'".to_owned();
    message.append(key);
    message.append("' is now set to ");
    message.append(value);
    message
}

/// Whether a value has nothing within it, unless it is a list or an object.
pub open spec fn is_sound(value: Places) -> bool {
    !is_nested(value[Seq::empty()]) ==> value == single(value[Seq::empty()])
}

/// Whether a new value has been put at the place of an option, and the options are as before but
/// for that. What stood there before is a value, and putting it back would give the options back.
pub open spec fn replaced(before: Places, after: Places, place: Seq<char>, part: Places) -> bool {
    &&& after == written(before, place, part)
    &&& after.contains_key(place)
    &&& subtree(after, place) == part
    &&& before.contains_key(place)
    &&& is_sound(subtree(before, place))
    &&& written(before, place, subtree(before, place)) == before
}

/// Puts a value at a place.
fn replace(options: &mut serde_json::Value, pointer: &str, value: serde_json::Value)
    requires
        contents(*old(options)).contains_key(pointer@),
        is_sound(subtree(contents(*old(options)), pointer@)),
    ensures
        replaced(contents(*old(options)), contents(*final(options)), pointer@, contents(value)),
{
    if let Some(place) = options.pointer_mut(pointer) {
        *place = value;
    }
}

/// The value that a field stands for, once it has been read as JSON.
pub open spec fn field_reading(
    field: Seq<char>,
    parsed: Result<Places, Seq<char>>,
) -> Result<Places, Seq<char>> {
    match parsed {
        Ok(places) => Ok(places),
        Err(error) => Err("Could not parse field `"@ + field + "`: "@ + error),
    }
}

/// The value that a field stands for, once it has been read as JSON.
pub fn field_value(field: &str, parsed: Result<serde_json::Value, String>) -> (r: Result<
    serde_json::Value,
    String,
>)
    ensures
        reading(r) == field_reading(field@, reading(parsed)),
{
    match parsed {
        Ok(value) => Ok(value),
        Err(error) => {
            let mut message = "Could not parse field `".to_owned();
            message.append(field);
            message.append("`: ");
            message.append(error.as_str());
            Err(message)
        },
    }
}

/// The new value that `set-option` gives an option, or the error. A field for an option that is
/// a text is taken as it is, any other is read as JSON.
pub open spec fn set_outcome(places: Places, args: ArgsView) -> Result<Places, Seq<char>> {
    let key = option_key(args);
    let pointer = option_pointer(key);
    let field = args.advanced().rest();
    if args.next() is None {
        Err("Bad arguments. Usage: `:set key field`, didn't provide `key`"@)
    } else if field.len() == 0 {
        Err("Bad arguments. Usage: `:set key field`, didn't provide `field`"@)
    } else if !places.contains_key(pointer) {
        Err(unknown_key(key))
    } else if places[pointer] is Text {
        Ok(single(Json::Text(field)))
    } else {
        field_reading(field, parsed_json(field))
    }
}

/// What `set-option` does.
pub open spec fn set_plan(places: Places, args: ArgsView, event: PromptEvent) -> PlanView {
    buffers::on_validate(
        event,
        match set_outcome(places, args) {
            Ok(_) => PlanView::of(
                seq![
                    Action::Do(Op::SendOptions),
                    Action::SetStatus(now_set(option_key(args), args.advanced().rest())),
                ],
            ),
            Err(error) => PlanView::failing(error),
        },
    )
}

proof fn lemma_subtree_root(places: Places, place: Seq<char>)
    ensures
        subtree(places, place).contains_key(Seq::empty()) == places.contains_key(place),
        places.contains_key(place) ==> subtree(places, place)[Seq::empty()] == places[place],
{
    assert(place + Seq::<char>::empty() =~= place);
}

/// Changes an option. Nested options are named with dots. For example, to disable smart case
/// search, use `:set search.smart-case false`.
pub fn set_option(options: &mut serde_json::Value, args: Args, event: PromptEvent) -> (r: Plan)
    requires
        args@.wf(),
    ensures
        r@ == set_plan(contents(*old(options)), args@, event),
        match set_outcome(contents(*old(options)), args@) {
            Ok(part) if event is Validate => replaced(
                contents(*old(options)),
                contents(*final(options)),
                option_pointer(option_key(args@)),
                part,
            ),
            _ => *final(options) == *old(options),
        },
{
    if event != PromptEvent::Validate {
        return Plan::nothing();
    }
    let ghost given = args@;
    let mut args = args;
    let arg = match args.next() {
        Some(arg) => arg,
        None => {
            return Plan::failing(
                "Bad arguments. Usage: `:set key field`, didn't provide `key`",
            );
        },
    };
    let key = text::to_lowercase(arg.as_str());
    let field = args.rest();
    if field.is_empty() {
        return Plan::failing("Bad arguments. Usage: `:set key field`, didn't provide `field`");
    }
    let pointer = pointer_to(key.as_str());
    let value = match options.pointer(pointer.as_str()) {
        Some(value) => value,
        None => {
            return Plan::failing(unknown_key_error(key.as_str()).as_str());
        },
    };
    proof {
        lemma_subtree_root(contents(*options), pointer@);
    }
    let wanted = match shape(value) {
        // JSON strings require quotes, so the field cannot be read as it is.
        Json::Text(_) => Ok(text_value(field)),
        _ => field_value(field, parse_json(field)),
    };
    assert(is_sound(contents(*value)));
    match wanted {
        Ok(wanted) => {
            replace(options, pointer.as_str(), wanted);
            let mut plan = Plan::doing(Op::SendOptions);
            plan.push(Action::SetStatus(now_set_message(key.as_str(), field)));
            assert(plan@.steps =~= set_plan(contents(*old(options)), given, event).steps);
            plan
        },
        Err(error) => Plan::failing(error.as_str()),
    }
}

/// The value behind the first occurrence of another.
pub open spec fn after_first(values: Seq<Seq<char>>, current: Seq<char>) -> Option<Seq<char>>
    decreases values.len(),
{
    if values.len() == 0 {
        None
    } else if values[0] == current {
        if values.len() > 1 {
            Some(values[1])
        } else {
            None
        }
    } else {
        after_first(values.skip(1), current)
    }
}

/// The value that is toggled to: the one behind the current value, or the first when the current
/// value is the last. A current value that is none of them is followed by the second.
pub open spec fn chosen(values: Seq<Seq<char>>, current: Seq<char>) -> Seq<char> {
    match after_first(values, current) {
        Some(value) => value,
        None => if values.contains(current) {
            values[0]
        } else {
            values[1]
        },
    }
}

/// The value that is toggled to among the arguments that have not been taken yet: the one behind
/// the current value, or the first when the current value is the last. A current value that is
/// none of them is followed by the second.
pub fn choose_value(args: &Args, current: &str) -> (r: String)
    requires
        args@.wf(),
        args@.left().len() >= 2,
    ensures
        r@ == chosen(args::texts(args@.left()), current@),
{
    let values = args.remaining();
    let ghost all = text::views(values@);
    let mut i: usize = 0;
    assert(all.skip(0) =~= all);
    while i < values.len()
        invariant
            all == text::views(values@),
            all == args::texts(args@.left()),
            2 <= values.len(),
            i <= values.len(),
            forall|j: int| 0 <= j < i ==> all[j] != current@,
            after_first(all.skip(i as int), current@) == after_first(all, current@),
        decreases values.len() - i,
    {
        assert(all.skip(i as int).skip(1) =~= all.skip(i + 1));
        if text::same(values[i].as_str(), current) {
            if i + 1 < values.len() {
                return values[i + 1].clone();
            }
            assert(all[i as int] == current@);
            return values[0].clone();
        }
        i = i + 1;
    }
    values[1].clone()
}

/// The list that is toggled to: the second of two, where the first is the current one, and else
/// the first.
pub open spec fn list_outcome(
    first: Option<Result<Places, Seq<char>>>,
    second: Option<Result<Places, Seq<char>>>,
    current: Places,
) -> Result<Places, Seq<char>> {
    match (first, second) {
        (Some(Err(error)), _) => Err(error),
        (_, Some(Err(error))) => Err(error),
        (Some(Ok(a)), Some(Ok(b))) => if a[Seq::empty()] is Array && b[Seq::empty()] is Array {
            if same_places(a, current) {
                Ok(b)
            } else {
                Ok(a)
            }
        } else {
            Err("values must be lists"@)
        },
        _ => Err("Bad arguments. For list configurations use: `:toggle key [...] [...]`"@),
    }
}

/// The list that is toggled to: the second of two, where the first is the current one, and else
/// the first.
pub fn choose_list(
    first: Option<Result<serde_json::Value, String>>,
    second: Option<Result<serde_json::Value, String>>,
    current: &serde_json::Value,
) -> (r: Result<serde_json::Value, String>)
    ensures
        reading(r) == list_outcome(
            maybe_reading(first),
            maybe_reading(second),
            contents(*current),
        ),
{
    match (first, second) {
        (Some(Err(error)), _) => Err(error),
        (_, Some(Err(error))) => Err(error),
        (Some(Ok(a)), Some(Ok(b))) => match (shape(&a), shape(&b)) {
            (Json::Array, Json::Array) => if same(&a, current) {
                Ok(b)
            } else {
                Ok(a)
            },
            _ => Err("values must be lists".to_owned()),
        },
        _ => Err(
            "Bad arguments. For list configurations use: `:toggle key [...] [...]`".to_owned(),
        ),
    }
}

/// The value that an option is toggled to, given its value and the arguments behind its name, or
/// the error.
pub open spec fn toggled_outcome(
    value: Places,
    key: Seq<char>,
    args: ArgsView,
) -> Result<Places, Seq<char>> {
    match value[Seq::empty()] {
        Json::Bool(b) => if args.next() is Some {
            Err("Bad arguments. For boolean configurations use: `:toggle key`"@)
        } else {
            Ok(single(Json::Bool(!b)))
        },
        Json::Text(current) => if args.words.len() < 3 {
            Err("Bad arguments. For string configurations use: `:toggle key val1 val2 ...`"@)
        } else {
            Ok(single(Json::Text(chosen(args::texts(args.left()), current))))
        },
        Json::Number(current) => if args.words.len() < 3 {
            Err("Bad arguments. For number configurations use: `:toggle key val1 val2 ...`"@)
        } else {
            number_reading(parsed_number(chosen(args::texts(args.left()), current)))
        },
        Json::Array => list_outcome(
            stream_item(args.rest(), 0),
            stream_item(args.rest(), 1),
            value,
        ),
        Json::Null | Json::Object => Err(
            "Configuration "@ + key + " does not support toggle yet"@,
        ),
    }
}

/// The new value that `toggle-option` gives an option, or the error.
pub open spec fn toggle_outcome(places: Places, args: ArgsView) -> Result<Places, Seq<char>> {
    let key = option_key(args);
    let pointer = option_pointer(key);
    if args.is_empty() {
        Err("Bad arguments. Usage: `:toggle key [values]?`"@)
    } else if !places.contains_key(pointer) {
        Err(unknown_key(key))
    } else {
        toggled_outcome(subtree(places, pointer), key, args.advanced())
    }
}

/// What `toggle-option` does.
pub open spec fn toggle_plan(places: Places, args: ArgsView, event: PromptEvent) -> PlanView {
    buffers::on_validate(
        event,
        match toggle_outcome(places, args) {
            Ok(part) => PlanView::of(
                seq![
                    Action::Do(Op::SendCheckedOptions),
                    Action::SetStatus(now_set(option_key(args), json_text(part))),
                ],
            ),
            Err(error) => PlanView::failing(error),
        },
    )
}

/// The value that an option is toggled to, given its value and the arguments behind its name.
fn toggled(value: &serde_json::Value, key: &str, args: &Args) -> (r: Result<
    serde_json::Value,
    String,
>)
    requires
        args@.wf(),
        args@.taken == 1,
    ensures
        reading(r) == toggled_outcome(contents(*value), key@, args@),
        is_sound(contents(*value)),
{
    match shape(value) {
        Json::Bool(b) => if args.taken < args.arg_count() {
            Err("Bad arguments. For boolean configurations use: `:toggle key`".to_owned())
        } else {
            Ok(bool_value(!b))
        },
        Json::Text(current) => if args.arg_count() < 3 {
            Err(
                "Bad arguments. For string configurations use: `:toggle key val1 val2 ...`".to_owned(),
            )
        } else {
            Ok(text_value(choose_value(args, current.as_str()).as_str()))
        },
        Json::Number(current) => if args.arg_count() < 3 {
            Err(
                "Bad arguments. For number configurations use: `:toggle key val1 val2 ...`".to_owned(),
            )
        } else {
            parse_number(choose_value(args, current.as_str()).as_str())
        },
        Json::Array => {
            let (first, second) = first_two(args.rest());
            choose_list(first, second, value)
        },
        Json::Null | Json::Object => {
            let mut message = "Configuration ".to_owned();
            message.append(key);
            message.append(" does not support toggle yet");
            Err(message)
        },
    }
}

/// Toggles an option. Nested options are named with dots.
///
/// Examples:
/// -  `:toggle search.smart-case` (a truth value)
/// -  `:toggle line-number relative absolute` (a text)
pub fn toggle_option(
    options: &mut serde_json::Value,
    args: Args,
    event: PromptEvent,
) -> (r: Plan)
    requires
        args@.taken == 0,
        event is Validate && !args@.is_empty() ==> args@.words.len() > 0,
    ensures
        r@ == toggle_plan(contents(*old(options)), args@, event),
        match toggle_outcome(contents(*old(options)), args@) {
            Ok(part) if event is Validate => replaced(
                contents(*old(options)),
                contents(*final(options)),
                option_pointer(option_key(args@)),
                part,
            ),
            _ => *final(options) == *old(options),
        },
{
    if event != PromptEvent::Validate {
        return Plan::nothing();
    }
    if args.is_empty() {
        return Plan::failing("Bad arguments. Usage: `:toggle key [values]?`");
    }
    let ghost given = args@;
    let mut args = args;
    let arg = match args.next() {
        Some(arg) => arg,
        None => {
            return Plan::nothing();
        },
    };
    let key = text::to_lowercase(arg.as_str());
    let pointer = pointer_to(key.as_str());
    let value = match options.pointer(pointer.as_str()) {
        Some(value) => value,
        None => {
            return Plan::failing(unknown_key_error(key.as_str()).as_str());
        },
    };
    match toggled(value, key.as_str(), &args) {
        Ok(wanted) => {
            let status = now_set_message(key.as_str(), text_of(&wanted).as_str());
            replace(options, pointer.as_str(), wanted);
            let mut plan = Plan::doing(Op::SendCheckedOptions);
            plan.push(Action::SetStatus(status));
            assert(plan@.steps =~= toggle_plan(contents(*old(options)), given, event).steps);
            plan
        },
        Err(error) => Plan::failing(error.as_str()),
    }
}

/// Once an option has been set, getting it shows the new value.
pub proof fn lemma_set_then_get(
    before: Places,
    after: Places,
    set_args: ArgsView,
    get_args: ArgsView,
    part: Places,
)
    requires
        set_outcome(before, set_args) == Ok::<Places, Seq<char>>(part),
        replaced(before, after, option_pointer(option_key(set_args)), part),
        get_args.words.len() == 1,
        option_key(get_args) == option_key(set_args),
    ensures
        get_plan(after, get_args, PromptEvent::Validate) == PlanView::status(json_text(part)),
{
}

/// The first token ends within a pointer.
proof fn lemma_token_end(pointer: Seq<char>)
    requires
        pointer.len() > 0,
    ensures
        1 <= token_end(pointer) <= pointer.len(),
        token_end(pointer) < pointer.len() ==> pointer[token_end(pointer)] == '/',
    decreases pointer.len(),
{
    if pointer.len() > 1 && pointer[1] != '/' {
        lemma_token_end(pointer.skip(1));
    }
}

/// The first token of a pointer is the same whatever pointer follows.
proof fn lemma_token_end_add(a: Seq<char>, b: Seq<char>)
    requires
        a.len() > 0,
        goes_on(b),
    ensures
        token_end(a + b) == token_end(a),
    decreases a.len(),
{
    if a.len() > 1 && a[1] != '/' {
        assert((a + b).skip(1) =~= a.skip(1) + b);
        lemma_token_end_add(a.skip(1), b);
    }
}

/// Two pointers, one behind the other, lead along the tokens of both.
proof fn lemma_tokens_add(a: Seq<char>, b: Seq<char>)
    requires
        goes_on(b),
    ensures
        tokens(a + b) == tokens(a) + tokens(b),
    decreases a.len(),
{
    if a.len() == 0 {
        assert(a + b =~= b);
    } else {
        let end = token_end(a);
        lemma_token_end(a);
        lemma_token_end_add(a, b);
        assert((a + b).subrange(1, end) =~= a.subrange(1, end));
        assert((a + b).skip(end) =~= a.skip(end) + b);
        lemma_tokens_add(a.skip(end), b);
        assert(tokens(a + b) =~= tokens(a) + tokens(b));
    }
}

/// Setting or toggling an option leaves every other option as it was, so that getting it shows
/// the same as before.
pub proof fn lemma_other_option_kept(
    before: Places,
    after: Places,
    key: Seq<char>,
    part: Places,
    get_args: ArgsView,
)
    requires
        replaced(before, after, option_pointer(key), part),
        !within(option_pointer(key), option_pointer(option_key(get_args))),
        !within(option_pointer(option_key(get_args)), option_pointer(key)),
    ensures
        get_plan(after, get_args, PromptEvent::Validate) == get_plan(
            before,
            get_args,
            PromptEvent::Validate,
        ),
{
    let place = option_pointer(key);
    let other = option_pointer(option_key(get_args));
    assert forall|q: Seq<char>| goes_on(q) implies !within(place, #[trigger] (other + q)) by {
        lemma_tokens_add(other, q);
        let a = tokens(place);
        let b = tokens(other);
        let whole = tokens(other + q);
        if a.is_prefix_of(whole) {
            if a.len() <= b.len() {
                assert(a =~= b.subrange(0, a.len() as int));
            } else {
                assert(b =~= a.subrange(0, b.len() as int));
            }
        }
    }
    assert(other + Seq::<char>::empty() =~= other);
    assert(goes_on(Seq::<char>::empty()));
    assert(subtree(after, other) =~= subtree(before, other));
}

/// Toggling a truth value twice gives all options back as they were.
pub proof fn lemma_toggle_twice(
    before: Places,
    between: Places,
    after: Places,
    args: ArgsView,
    first: Places,
    second: Places,
)
    requires
        before[option_pointer(option_key(args))] is Bool,
        toggle_outcome(before, args) == Ok::<Places, Seq<char>>(first),
        replaced(before, between, option_pointer(option_key(args)), first),
        toggle_outcome(between, args) == Ok::<Places, Seq<char>>(second),
        replaced(between, after, option_pointer(option_key(args)), second),
    ensures
        after == before,
{
    let pointer = option_pointer(option_key(args));
    lemma_subtree_root(before, pointer);
    lemma_subtree_root(between, pointer);
    assert(second == subtree(before, pointer));
    assert(written(between, pointer, second) =~= written(before, pointer, second));
}

/// A truth value can always be toggled again by the same command.
pub proof fn lemma_toggle_again(
    before: Places,
    between: Places,
    args: ArgsView,
    first: Places,
)
    requires
        before[option_pointer(option_key(args))] is Bool,
        toggle_outcome(before, args) == Ok::<Places, Seq<char>>(first),
        replaced(before, between, option_pointer(option_key(args)), first),
    ensures
        toggle_outcome(between, args) is Ok,
{
    lemma_subtree_root(before, option_pointer(option_key(args)));
}

proof fn lemma_after_first(values: Seq<Seq<char>>, current: Seq<char>)
    ensures
        after_first(values, current) is Some ==> values.contains(after_first(values, current)->0),
    decreases values.len(),
{
    if values.len() > 1 {
        let rest = values.skip(1);
        if values[0] != current {
            lemma_after_first(rest, current);
            if after_first(rest, current) is Some {
                let value = after_first(rest, current)->0;
                let k = choose|k: int| 0 <= k < rest.len() && rest[k] == value;
                assert(values[k + 1] == value);
            }
        } else {
            assert(values[1] == values[1]);
        }
    } else if values.len() == 1 && values[0] != current {
        assert(after_first(values.skip(1), current) is None);
    }
}

/// A text or a number is toggled only to one of the values that are given.
pub proof fn lemma_chosen_is_given(values: Seq<Seq<char>>, current: Seq<char>)
    requires
        values.len() >= 2,
    ensures
        values.contains(chosen(values, current)),
{
    lemma_after_first(values, current);
    assert(values[0] == values[0] && values[1] == values[1]);
}

proof fn lemma_after_first_at(values: Seq<Seq<char>>, i: int)
    requires
        values.no_duplicates(),
        0 <= i < values.len(),
    ensures
        after_first(values, values[i]) == (if i + 1 < values.len() {
            Some(values[i + 1])
        } else {
            None
        }),
    decreases i,
{
    if i > 0 {
        let rest = values.skip(1);
        assert(rest[i - 1] == values[i]);
        assert(rest.no_duplicates());
        lemma_after_first_at(rest, i - 1);
    }
}

/// Toggling goes round through values that differ: from each to the one behind it, and from the
/// last to the first.
pub proof fn lemma_toggle_goes_round(values: Seq<Seq<char>>, i: int)
    requires
        values.no_duplicates(),
        0 <= i < values.len(),
    ensures
        chosen(values, values[i]) == (if i + 1 < values.len() {
            values[i + 1]
        } else {
            values[0]
        }),
{
    lemma_after_first_at(values, i);
    assert(values.contains(values[i]));
}

/// Toggling goes back and forth between two lists.
pub proof fn lemma_toggle_lists(a: Places, b: Places)
    requires
        a[Seq::empty()] is Array,
        b[Seq::empty()] is Array,
        !same_places(a, b),
    ensures
        list_outcome(Some(Ok(a)), Some(Ok(b)), a) == Ok::<Places, Seq<char>>(b),
        list_outcome(Some(Ok(a)), Some(Ok(b)), b) == Ok::<Places, Seq<char>>(a),
{
}

/// When the toggled options are not valid, that is the error, and nothing is said of a new value.
pub proof fn lemma_invalid_options_not_announced(
    places: Places,
    args: ArgsView,
    failures: spec_fn(nat) -> Option<Seq<char>>,
)
    requires
        toggle_outcome(places, args) is Ok,
        failures(0) is Some,
    ensures
        toggle_plan(places, args, PromptEvent::Validate).steps[0] == StepView::Do(
            Op::SendCheckedOptions,
        ),
        plan::course(toggle_plan(places, args, PromptEvent::Validate), failures) == (Course {
            done: 1,
            error: failures(0),
        }),
{
    let plan = toggle_plan(places, args, PromptEvent::Validate);
    plan::lemma_first_failure_ends(plan.steps, plan.error, failures, 0, 0);
}

} // verus!
