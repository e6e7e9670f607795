//! npm imports that keep the JavaScript and run it through Node.js.
use vstd::prelude::*;

use crate::text::{contains, push_str, str_contains};
use crate::vpm::names::{escape_void_string, escaped};

verus! {

/// The `index.void` of a bridged import: it names the npm package and its
/// JavaScript entry, and runs JavaScript files with `node`.
pub open spec fn bridge_script(npm_name: Seq<char>, npm_version: Seq<char>, main_js: Seq<char>) -> Seq<
    char,
> {
    "module.exports.name = \""@ + escaped(npm_name) + "\"\nmodule.exports.version = \""@ + escaped(
        npm_version,
    ) + "\"\nmodule.exports.kind = \"npm_bridge\"\nmodule.exports.entry_js = \"npm/package/"@
        + escaped(main_js)
        + "\"\nmodule.exports.runtime = \"node_bridge\"\nmodule.exports.warning = \"Auto-imported npm package. Uses Node.js bridge for JS runtime.\"\n\nmodule.exports.run_entry = fn () {\nuse \"cmd\" as cmd\nreturn cmd.run(\"node '\" + __dirname + \"/\" + module.exports.entry_js + \"'\")\n}\n\nmodule.exports.run = fn (relative_js) {\nuse \"cmd\" as cmd\nreturn cmd.run(\"node '\" + __dirname + \"/npm/package/\" + relative_js + \"'\")\n}\n"@
}

pub fn npm_wrapper_script(npm_name: &str, npm_version: &str, main_js: &str) -> (r: String)
    ensures
        r@ == bridge_script(npm_name@, npm_version@, main_js@),
{
    let mut out = String::from_str("module.exports.name = \"");
    push_str(&mut out, escape_void_string(npm_name).as_str());
    push_str(&mut out, "\"\nmodule.exports.version = \"");
    push_str(&mut out, escape_void_string(npm_version).as_str());
    push_str(&mut out, "\"\nmodule.exports.kind = \"npm_bridge\"\nmodule.exports.entry_js = \"npm/package/");
    push_str(&mut out, escape_void_string(main_js).as_str());
    push_str(
        &mut out,
        "\"\nmodule.exports.runtime = \"node_bridge\"\nmodule.exports.warning = \"Auto-imported npm package. Uses Node.js bridge for JS runtime.\"\n\nmodule.exports.run_entry = fn () {\nuse \"cmd\" as cmd\nreturn cmd.run(\"node '\" + __dirname + \"/\" + module.exports.entry_js + \"'\")\n}\n\nmodule.exports.run = fn (relative_js) {\nuse \"cmd\" as cmd\nreturn cmd.run(\"node '\" + __dirname + \"/npm/package/\" + relative_js + \"'\")\n}\n",
    );
    out
}

/// Whether a `.void` file of the npm cache was written by the older
/// conversion that replaced JavaScript with Void stubs.
pub open spec fn legacy_void_unit(content: Seq<char>) -> bool {
    contains(content, "module.exports.kind = \"npm_void_unit\""@) || contains(
        content,
        "Converted to Void-only package format"@,
    )
}

pub fn is_legacy_void_unit(content: &str) -> (b: bool)
    ensures
        b == legacy_void_unit(content@),
{
    str_contains(content, "module.exports.kind = \"npm_void_unit\"") || str_contains(
        content,
        "Converted to Void-only package format",
    )
}

} // verus!
