//! What holds of the commands that read and change options.
use vstd::prelude::*;

use crate::args::{ArgsView, PromptEvent};
use crate::command::Fun;
use crate::editor::Editor;
use crate::law::closing;
use crate::options;
use crate::options::{Json, Places};
use crate::plan::{Op, PlanView, StepView};
use crate::run;
use crate::text;

verus! {

/// An option is looked for at its key with slashes for the dots, behind a slash: a key within a
/// key is a place within a place.
pub proof fn lemma_option_pointer(outer: Seq<char>, inner: Seq<char>, key: Seq<char>)
    ensures
        options::option_pointer(outer + seq!['.'] + inner) == options::option_pointer(outer)
            + options::option_pointer(inner),
        (forall|i: int| 0 <= i < key.len() ==> #[trigger] key[i] != '.') ==> options::option_pointer(
            key,
        ) == seq!['/'] + key,
{
    assert(options::option_pointer(outer + seq!['.'] + inner) =~= options::option_pointer(outer)
        + options::option_pointer(inner));
    if forall|i: int| 0 <= i < key.len() ==> #[trigger] key[i] != '.' {
        assert(options::option_pointer(key) =~= seq!['/'] + key);
    }
}

/// Only `set-option` and `toggle-option` change options, and only when their line is confirmed.
pub proof fn lemma_only_two_change_options(
    fun: Fun,
    before: serde_json::Value,
    after: serde_json::Value,
    args: ArgsView,
    event: PromptEvent,
)
    requires
        run::options_changed(fun, before, after, args, event),
        !(fun is SetOption || fun is ToggleOption) || !(event is Validate),
    ensures
        after == before,
{
}

/// `get-option` says what stands at the place of the option that its one argument names, in any
/// case of letters. It refuses what names none, and any other number of arguments.
pub proof fn lemma_get_option(editor: Editor, places: Places, args: ArgsView)
    requires
        args.taken == 0,
    ensures
        ({
            let plan = closing::confirmed(Fun::GetOption, editor, places, args);
            let key = text::lowercased(args.words[0].text);
            let pointer = options::option_pointer(key);
            &&& args.words.len() != 1 ==> plan == (PlanView {
                steps: Seq::empty(),
                error: Some("Bad arguments. Usage: `:get key`"@),
            })
            &&& args.words.len() == 1 && places.contains_key(pointer) ==> plan == (PlanView {
                steps: seq![StepView::SetStatus(options::json_text(options::subtree(places, pointer)))],
                error: None,
            })
            &&& args.words.len() == 1 && !places.contains_key(pointer) ==> plan == (PlanView {
                steps: Seq::empty(),
                error: Some("Unknown key `"@ + key + "`"@),
            })
        }),
{
}

/// The message that an option has a new value.
pub open spec fn announced(key: Seq<char>, value: Seq<char>) -> StepView {
    StepView::SetStatus(seq!['\''] + key + "' is now set to "@ + value)
}

/// `set-option` puts at the option's place what the rest of the line reads as, whatever stood
/// there: that very text if a text stood there, and the value that it is in JSON otherwise. What
/// cannot be read is refused and changes nothing.
pub proof fn lemma_set_option(
    editor: Editor,
    before: serde_json::Value,
    after: serde_json::Value,
    args: ArgsView,
    value: Places,
    error: Seq<char>,
)
    requires
        args.taken == 0,
        args.words.len() > 0,
        args.words[0].tail.len() > 0,
        options::contents(before).contains_key(
            options::option_pointer(text::lowercased(args.words[0].text)),
        ),
        run::options_changed(Fun::SetOption, before, after, args, PromptEvent::Validate),
    ensures
        ({
            let key = text::lowercased(args.words[0].text);
            let pointer = options::option_pointer(key);
            let field = args.words[0].tail;
            let places = options::contents(before);
            let plan = closing::confirmed(Fun::SetOption, editor, places, args);
            let is_text = places[pointer] is Text;
            let done = PlanView {
                steps: seq![StepView::Do(Op::SendOptions), announced(key, field)],
                error: None,
            };
            &&& is_text ==> {
                &&& options::subtree(options::contents(after), pointer) == options::single(
                    Json::Text(field),
                )
                &&& plan == done
            }
            &&& !is_text && options::parsed_json(field) == Ok::<Places, Seq<char>>(value) ==> {
                &&& options::subtree(options::contents(after), pointer) == value
                &&& plan == done
            }
            &&& !is_text && options::parsed_json(field) == Err::<Places, Seq<char>>(error) ==> {
                &&& after == before
                &&& plan == (PlanView {
                    steps: Seq::empty(),
                    error: Some("Could not parse field `"@ + field + "`: "@ + error),
                })
            }
        }),
{
    reveal_strlit("'");
    assert("'"@ =~= seq!['\'']);
}

/// `set-option` without a key, without a value or with a key that names no option is refused and
/// changes nothing.
pub proof fn lemma_set_option_refused(
    editor: Editor,
    before: serde_json::Value,
    after: serde_json::Value,
    args: ArgsView,
)
    requires
        args.taken == 0,
        run::options_changed(Fun::SetOption, before, after, args, PromptEvent::Validate),
    ensures
        ({
            let places = options::contents(before);
            let plan = closing::confirmed(Fun::SetOption, editor, places, args);
            let key = text::lowercased(args.words[0].text);
            &&& args.words.len() == 0 ==> after == before && plan == (PlanView {
                steps: Seq::empty(),
                error: Some("Bad arguments. Usage: `:set key field`, didn't provide `key`"@),
            })
            &&& args.words.len() > 0 && args.words[0].tail.len() == 0 ==> after == before && plan
                == (PlanView {
                steps: Seq::empty(),
                error: Some("Bad arguments. Usage: `:set key field`, didn't provide `field`"@),
            })
            &&& args.words.len() > 0 && args.words[0].tail.len() > 0 && !places.contains_key(
                options::option_pointer(key),
            ) ==> after == before && plan == (PlanView {
                steps: Seq::empty(),
                error: Some("Unknown key `"@ + key + "`"@),
            })
        }),
{
}

/// What is chosen of some values: the one behind the first that is the present value, the first
/// behind the last, and the second if the present value is none of them.
pub proof fn lemma_chosen(values: Seq<Seq<char>>, current: Seq<char>, i: int)
    requires
        values.len() >= 2,
    ensures
        0 <= i < values.len() && values[i] == current && (forall|j: int|
            0 <= j < i ==> #[trigger] values[j] != current) ==> options::chosen(values, current)
            == (if i + 1 < values.len() {
            values[i + 1]
        } else {
            values[0]
        }),
        (forall|j: int| 0 <= j < values.len() ==> #[trigger] values[j] != current)
            ==> options::chosen(values, current) == values[1],
{
    if 0 <= i < values.len() && values[i] == current && (forall|j: int|
        0 <= j < i ==> #[trigger] values[j] != current) {
        lemma_behind_first(values, current, i);
    }
    if forall|j: int| 0 <= j < values.len() ==> #[trigger] values[j] != current {
        lemma_behind_none(values, current);
    }
}

proof fn lemma_behind_first(values: Seq<Seq<char>>, current: Seq<char>, i: int)
    requires
        0 <= i < values.len(),
        values[i] == current,
        forall|j: int| 0 <= j < i ==> #[trigger] values[j] != current,
    ensures
        options::after_first(values, current) == (if i + 1 < values.len() {
            Some(values[i + 1])
        } else {
            None
        }),
    decreases i,
{
    if i > 0 {
        let rest = values.skip(1);
        assert(values[0] != current);
        assert forall|j: int| 0 <= j < i - 1 implies #[trigger] rest[j] != current by {
            assert(values[j + 1] != current);
        }
        lemma_behind_first(rest, current, i - 1);
    }
}

proof fn lemma_behind_none(values: Seq<Seq<char>>, current: Seq<char>)
    requires
        forall|j: int| 0 <= j < values.len() ==> #[trigger] values[j] != current,
    ensures
        options::after_first(values, current) is None,
    decreases values.len(),
{
    if values.len() > 0 {
        let rest = values.skip(1);
        assert forall|j: int| 0 <= j < rest.len() implies #[trigger] rest[j] != current by {
            assert(values[j + 1] != current);
        }
        lemma_behind_none(rest, current);
    }
}

/// The texts that are typed behind the key.
pub open spec fn behind_key(args: ArgsView) -> Seq<Seq<char>> {
    Seq::new((args.words.len() - 1) as nat, |k: int| args.words[k + 1].text)
}

/// The outcome of a refused command: an error, no steps and no new options.
pub open spec fn refused(
    plan: PlanView,
    before: serde_json::Value,
    after: serde_json::Value,
    error: Seq<char>,
) -> bool {
    after == before && plan == (PlanView { steps: Seq::empty(), error: Some(error) })
}

/// The outcome of an option's toggling: its place holds the new value, and that is announced once
/// the options have been checked.
pub open spec fn toggled(
    plan: PlanView,
    after: serde_json::Value,
    key: Seq<char>,
    value: Places,
) -> bool {
    &&& options::subtree(options::contents(after), options::option_pointer(key)) == value
    &&& plan == (PlanView {
        steps: seq![
            StepView::Do(Op::SendCheckedOptions),
            announced(key, options::json_text(value)),
        ],
        error: None,
    })
}

/// `toggle-option` turns a switch over, and takes no values for it. A text becomes the value behind
/// the present one, and a number the number that this value is. What is neither of these nor a
/// list cannot be toggled.
pub proof fn lemma_toggle_option(
    editor: Editor,
    before: serde_json::Value,
    after: serde_json::Value,
    args: ArgsView,
)
    requires
        args.taken == 0,
        args.raw.len() > 0,
        args.words.len() > 0,
        options::contents(before).contains_key(
            options::option_pointer(text::lowercased(args.words[0].text)),
        ),
        run::options_changed(Fun::ToggleOption, before, after, args, PromptEvent::Validate),
    ensures
        ({
            let key = text::lowercased(args.words[0].text);
            let places = options::contents(before);
            let plan = closing::confirmed(Fun::ToggleOption, editor, places, args);
            match places[options::option_pointer(key)] {
                Json::Bool(b) => if args.words.len() == 1 {
                    toggled(plan, after, key, options::single(Json::Bool(!b)))
                } else {
                    refused(
                        plan,
                        before,
                        after,
                        "Bad arguments. For boolean configurations use: `:toggle key`"@,
                    )
                },
                Json::Text(current) => if args.words.len() >= 3 {
                    toggled(
                        plan,
                        after,
                        key,
                        options::single(Json::Text(options::chosen(behind_key(args), current))),
                    )
                } else {
                    refused(
                        plan,
                        before,
                        after,
                        "Bad arguments. For string configurations use: `:toggle key val1 val2 ...`"@,
                    )
                },
                Json::Number(current) => if args.words.len() >= 3 {
                    match options::parsed_number(options::chosen(behind_key(args), current)) {
                        Ok(n) => toggled(plan, after, key, options::single(Json::Number(n))),
                        Err(error) => refused(plan, before, after, error),
                    }
                } else {
                    refused(
                        plan,
                        before,
                        after,
                        "Bad arguments. For number configurations use: `:toggle key val1 val2 ...`"@,
                    )
                },
                Json::Array => true,
                Json::Null | Json::Object => refused(
                    plan,
                    before,
                    after,
                    "Configuration "@ + key + " does not support toggle yet"@,
                ),
            }
        }),
{
    reveal_strlit("'");
    assert("'"@ =~= seq!['\'']);
    let behind = args.advanced();
    assert(crate::args::texts(behind.left()) =~= behind_key(args));
    let pointer = options::option_pointer(text::lowercased(args.words[0].text));
    let places = options::contents(before);
    assert(pointer + Seq::<char>::empty() =~= pointer);
    assert(options::subtree(places, pointer)[Seq::empty()] == places[pointer]);
}

/// A list becomes the second of the two lists that are typed behind the key if it is the first
/// one, and the first one otherwise. Two lists have to be there, each readable.
pub proof fn lemma_toggle_list(
    editor: Editor,
    before: serde_json::Value,
    after: serde_json::Value,
    args: ArgsView,
)
    requires
        args.taken == 0,
        args.raw.len() > 0,
        args.words.len() > 0,
        options::contents(before).contains_key(
            options::option_pointer(text::lowercased(args.words[0].text)),
        ),
        options::contents(
            before,
        )[options::option_pointer(text::lowercased(args.words[0].text))] is Array,
        run::options_changed(Fun::ToggleOption, before, after, args, PromptEvent::Validate),
    ensures
        ({
            let key = text::lowercased(args.words[0].text);
            let places = options::contents(before);
            let plan = closing::confirmed(Fun::ToggleOption, editor, places, args);
            let present = options::subtree(places, options::option_pointer(key));
            let first = options::stream_item(args.words[0].tail, 0);
            let second = options::stream_item(args.words[0].tail, 1);
            &&& first is Some && first->0 is Err ==> refused(plan, before, after, first->0->Err_0)
            &&& !(first is Some && first->0 is Err) && second is Some && second->0 is Err
                ==> refused(plan, before, after, second->0->Err_0)
            &&& !(first is Some && first->0 is Err) && !(second is Some && second->0 is Err) && (
            first is None || second is None) ==> refused(
                plan,
                before,
                after,
                "Bad arguments. For list configurations use: `:toggle key [...] [...]`"@,
            )
            &&& first is Some && first->0 is Ok && second is Some && second->0 is Ok ==> {
                let a = first->0->Ok_0;
                let b = second->0->Ok_0;
                &&& !(a[Seq::empty()] is Array && b[Seq::empty()] is Array) ==> refused(
                    plan,
                    before,
                    after,
                    "values must be lists"@,
                )
                &&& a[Seq::empty()] is Array && b[Seq::empty()] is Array && a == present
                    ==> toggled(plan, after, key, b)
                &&& a[Seq::empty()] is Array && b[Seq::empty()] is Array && differs(a, present)
                    ==> toggled(plan, after, key, a)
            }
        }),
{
    reveal_strlit("'");
    assert("'"@ =~= seq!['\'']);
    let pointer = options::option_pointer(text::lowercased(args.words[0].text));
    let places = options::contents(before);
    assert(pointer + Seq::<char>::empty() =~= pointer);
    assert(options::subtree(places, pointer)[Seq::empty()] == places[pointer]);
}

/// Whether two values differ: one has something at a place where the other has nothing, or they
/// have different things there that are not both a zero with a fraction.
pub open spec fn differs(a: Places, b: Places) -> bool {
    exists|p: Seq<char>|
        a.contains_key(p) != b.contains_key(p) || (#[trigger] a.contains_key(p) && a[p] != b[p]
            && !(a[p] is Number && (a[p]->Number_0 == "0.0"@ || a[p]->Number_0 == "-0.0"@)
            && b[p] is Number && (b[p]->Number_0 == "0.0"@ || b[p]->Number_0 == "-0.0"@)))
}

/// `toggle-option` without anything behind it, or with a key that names no option, is refused and
/// changes nothing.
pub proof fn lemma_toggle_refused(
    editor: Editor,
    before: serde_json::Value,
    after: serde_json::Value,
    args: ArgsView,
)
    requires
        args.taken == 0,
        run::options_changed(Fun::ToggleOption, before, after, args, PromptEvent::Validate),
    ensures
        ({
            let places = options::contents(before);
            let plan = closing::confirmed(Fun::ToggleOption, editor, places, args);
            let key = text::lowercased(args.words[0].text);
            &&& args.raw.len() == 0 ==> refused(
                plan,
                before,
                after,
                "Bad arguments. Usage: `:toggle key [values]?`"@,
            )
            &&& args.raw.len() > 0 && args.words.len() > 0 && !places.contains_key(
                options::option_pointer(key),
            ) ==> refused(plan, before, after, "Unknown key `"@ + key + "`"@)
        }),
{
}

} // verus!
