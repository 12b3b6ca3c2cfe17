//! The JavaScript that surrounds a script, and the global that holds its input.

use serde_json::Value;
use vstd::prelude::*;
use vstd::string::*;

use crate::frame::json_size;
use crate::model::{ScriptInput, MAX_SCRIPT_BYTES, MAX_VALUE_BYTES};
use crate::servers::build_servers_prelude;
use crate::text::byte_len;

verus! {

/// Installed before the script: the `toolport` object.
pub const PRELUDE: &'static str = "
globalThis.toolport = {
    call: function (name, args) {
        var payload = (args === undefined || args === null) ? {} : args;
        return JSON.parse(__toolport_call(String(name), JSON.stringify(payload)));
    },
    checkpoint: function (value) {
        __toolport_checkpoint(JSON.stringify(value === undefined ? null : value));
    },
    callAsync: function (name, args) {
        var payload = (args === undefined || args === null) ? {} : args;
        return __toolport_call_async(String(name), JSON.stringify(payload)).then(function (raw) {
            return JSON.parse(raw);
        });
    },
    callAll: function (items) {
        if (!Array.isArray(items)) {
            return Promise.reject(new TypeError(\"toolport.callAll expects an array of {name, args}\"));
        }
        return Promise.all(items.map(function (item) {
            var name = item && item.name;
            var args = item && item.args;
            return toolport.callAsync(name, args);
        }));
    },
    // Page a shaped result by cursor (same stash as toolport_fetch_result). Prefer
    // projecting / filtering full intermediate tool results in-script instead; this
    // is for cursors handed in via `data` or left from a prior shaped agent turn.
    fetchResult: function (opts) {
        opts = (opts === undefined || opts === null) ? {} : opts;
        return JSON.parse(__toolport_fetch_result(JSON.stringify({
            cursor: opts.cursor,
            offset: opts.offset,
            len: opts.len,
            projection: opts.projection
        })));
    },
    listTools: function () { return []; },
    listServers: function () { return []; },
};
";

/// Freezes the `input` global and everything that it holds.
pub const DEEP_FREEZE_INPUT: &'static str = "
            (function (root) {
                const seen = new WeakSet();
                function freeze(value) {
                    if (value === null || typeof value !== \"object\" || seen.has(value)) return value;
                    seen.add(value);
                    for (const key of Object.keys(value)) freeze(value[key]);
                    return Object.freeze(value);
                }
                freeze(root);
            })(input);
        ";

/// How a script sees its input.
#[derive(Debug, Clone, Copy)]
pub struct InputGlobal {
    /// The name of the global.
    pub name: &'static str,
    /// Whether the script may write, list and remove the global.
    pub writable: bool,
    /// Whether [`DEEP_FREEZE_INPUT`] runs before the script.
    pub frozen: bool,
}

impl ScriptInput {
    /// The JSON payload.
    pub open spec fn payload(self) -> Value {
        match self {
            ScriptInput::Data(value) => value,
            ScriptInput::ImmutableInput(value) => value,
        }
    }

    pub open spec fn immutable(self) -> bool {
        self is ImmutableInput
    }

    pub open spec fn global_name(self) -> Seq<char> {
        match self {
            ScriptInput::Data(_) => "data"@,
            ScriptInput::ImmutableInput(_) => "input"@,
        }
    }

    /// The global that holds this input.
    pub fn global(&self) -> (global: InputGlobal)
        ensures
            global.name@ == self.global_name(),
            global.writable == !self.immutable(),
            global.frozen == self.immutable(),
    {
        match self {
            ScriptInput::Data(_) => InputGlobal { name: "data", writable: true, frozen: false },
            ScriptInput::ImmutableInput(_) => InputGlobal {
                name: "input",
                writable: false,
                frozen: true,
            },
        }
    }

    /// The payload.
    pub fn value(&self) -> (value: &Value)
        ensures
            *value == self.payload(),
    {
        match self {
            ScriptInput::Data(value) => value,
            ScriptInput::ImmutableInput(value) => value,
        }
    }

    /// The payload, and whether it is immutable: how an input crosses the worker pipe.
    pub fn into_parts(self) -> (parts: (Value, bool))
        ensures
            parts == (self.payload(), self.immutable()),
    {
        match self {
            ScriptInput::Data(value) => (value, false),
            ScriptInput::ImmutableInput(value) => (value, true),
        }
    }

    /// The input that [`ScriptInput::into_parts`] took apart.
    pub fn from_parts(value: Value, immutable: bool) -> (input: ScriptInput)
        ensures
            input.payload() == value,
            input.immutable() == immutable,
    {
        if immutable {
            ScriptInput::ImmutableInput(value)
        } else {
            ScriptInput::Data(value)
        }
    }
}

/// The script as it is evaluated: the body of an async function that is called at once, so that
/// `return` and `await` work at its top level.
pub open spec fn wrapped(script: Seq<char>) -> Seq<char> {
    "(async function () {\n"@ + script + "\n})()"@
}

/// The script as it is evaluated.
pub fn wrap_script(script: &str) -> (source: String)
    ensures
        source@ == wrapped(script@),
{
    let mut source = "(async function () {\n".to_owned();
    source.append(script);
    source.append("\n})()");
    source
}

/// What is evaluated for a script, in order: what freezes its input, where that is immutable; the
/// `toolport` object; the `servers` object of the catalog, which calls through it; and the script.
pub open spec fn sources(script: Seq<char>, immutable: bool, catalog: Seq<String>) -> Seq<
    Seq<char>,
> {
    let rest = seq![
        PRELUDE@,
        crate::servers::prelude_text(crate::servers::catalog_index(catalog)),
        wrapped(script),
    ];
    if immutable {
        seq![DEEP_FREEZE_INPUT@] + rest
    } else {
        rest
    }
}

/// What is evaluated for a script, in order. The value of the last is the script's promise.
pub fn evaluation_sources(script: &str, input: &ScriptInput, catalog: &[String]) -> (texts: Vec<
    String,
>)
    ensures
        texts@.map_values(|text: String| text@) == sources(script@, input.immutable(), catalog@),
{
    let mut texts: Vec<String> = Vec::new();
    if input.global().frozen {
        texts.push(DEEP_FREEZE_INPUT.to_owned());
    }
    texts.push(PRELUDE.to_owned());
    texts.push(build_servers_prelude(catalog));
    texts.push(wrap_script(script));
    proof {
        assert(texts@.map_values(|text: String| text@) =~= sources(
            script@,
            input.immutable(),
            catalog@,
        ));
    }
    texts
}

/// Why a script or its input is refused before a worker starts, if it is. The script's size is
/// looked at first.
pub open spec fn input_error(script: Seq<char>, input: ScriptInput) -> Option<Seq<char>> {
    if crate::text::utf8_len(script) > MAX_SCRIPT_BYTES {
        Some("code mode script exceeds the 262144-byte source limit"@)
    } else if crate::frame::size_within(input.payload(), MAX_VALUE_BYTES as nat) is None {
        Some("code mode "@ + input.global_name() + " exceeds the 4194304-byte value limit"@)
    } else {
        None
    }
}

/// Refuses a script or an input that is over its size limit.
pub fn check_input(script: &str, input: &ScriptInput) -> (checked: Result<(), String>)
    ensures
        match checked {
            Ok(_) => input_error(script@, *input) is None,
            Err(error) => input_error(script@, *input) == Some(error@),
        },
{
    if byte_len(script) > MAX_SCRIPT_BYTES {
        return Err("code mode script exceeds the 262144-byte source limit".to_owned());
    }
    if json_size(input.value(), MAX_VALUE_BYTES).is_none() {
        let mut error = "code mode ".to_owned();
        error.append(input.global().name);
        error.append(" exceeds the 4194304-byte value limit");
        return Err(error);
    }
    Ok(())
}

/// A script is evaluated as it stands: the text that is evaluated holds it whole, between the
/// opening and the closing line of an async function that is called at once.
pub proof fn law_script_is_wrapped_whole(script: Seq<char>)
    ensures
        wrapped(script) == "(async function () {\n"@ + script + "\n})()"@,
        wrapped(script).skip("(async function () {\n"@.len() as int).take(script.len() as int)
            == script,
        wrapped(script).len() == "(async function () {\n"@.len() + script.len()
            + "\n})()"@.len(),
{
    assert(wrapped(script).skip("(async function () {\n"@.len() as int).take(script.len() as int)
        =~= script);
}

/// The script is evaluated last, after the `servers` object of its whole catalog, which comes
/// after the `toolport` object; before them an immutable input is frozen, and no other is.
pub proof fn law_script_is_evaluated_last(
    script: Seq<char>,
    immutable: bool,
    catalog: Seq<String>,
)
    ensures
        ({
            let texts = sources(script, immutable, catalog);
            let first: int = if immutable {
                1
            } else {
                0
            };
            &&& texts.len() == first + 3
            &&& immutable ==> texts[0] == DEEP_FREEZE_INPUT@
            &&& texts[first] == PRELUDE@
            &&& texts[first + 1] == crate::servers::prelude_text(
                crate::servers::catalog_index(catalog),
            )
            &&& texts[first + 2] == wrapped(script)
        }),
{
}

/// An input is its payload and how the script sees it: as `data` that may change, or as `input`
/// that may not.
pub proof fn law_inputs_are_seen_as_given(value: Value)
    ensures
        ScriptInput::Data(value).payload() == value,
        !ScriptInput::Data(value).immutable(),
        ScriptInput::Data(value).global_name() == "data"@,
        ScriptInput::ImmutableInput(value).payload() == value,
        ScriptInput::ImmutableInput(value).immutable(),
        ScriptInput::ImmutableInput(value).global_name() == "input"@,
{
}

/// A script of at most 262144 bytes, with an input whose encoding has at most 4194304, is taken;
/// a longer script is refused as such, whatever its input, and a longer input by the name that
/// the script would see it under.
pub proof fn law_only_size_refuses_an_input(script: Seq<char>, input: ScriptInput)
    ensures
        ({
            let fits = crate::json::json_text(input.payload()) matches Some(text)
                && vstd::utf8::encode_utf8(text).len() <= 4_194_304;
            let short = vstd::utf8::encode_utf8(script).len() <= 262_144;
            &&& short && fits <==> input_error(script, input) is None
            &&& !short ==> input_error(script, input) == Some(
                "code mode script exceeds the 262144-byte source limit"@,
            )
            &&& short && !fits && input is Data ==> input_error(script, input) == Some(
                "code mode "@ + "data"@ + " exceeds the 4194304-byte value limit"@,
            )
            &&& short && !fits && input is ImmutableInput ==> input_error(script, input) == Some(
                "code mode "@ + "input"@ + " exceeds the 4194304-byte value limit"@,
            )
        }),
{
}

} // verus!
