//! The scripts a session injects into the page: the walker that snapshots
//! it and the guard that performs an action only on the element a ref named.
use vstd::prelude::*;

use crate::page::{debug_quoted, debug_string_literal, json_quoted, json_string_literal};
use crate::snapshot::{RefIdentity, MAX_SNAPSHOT_ELEMENTS, MAX_SNAPSHOT_FIELD_CHARS};
use crate::text::{decimal_chars, into_string, push_decimal, push_str_chars};

verus! {

/// The attribute that stamps each element a snapshot referenced.
pub const REF_ATTRIBUTE: &'static str = "data-wardian-ref";
/// The attribute that stamps the generation the reference belongs to.
pub const GENERATION_ATTRIBUTE: &'static str = "data-wardian-snapshot";

/// Role and accessible-name derivation, shared by the walker and the guard,
/// before the field cap.
pub const IDENTITY_HEAD: &'static str = "  const MAX_FIELD = ";
/// The same helpers after the field cap.
pub const IDENTITY_TAIL: &'static str = ";\n  // Mirrors `clamp_field` exactly. `Array.from` counts code points, matching\n  // Rust's `chars()`; plain indexing would diverge on astral characters.\n  const clampField = (value) => {\n    const normalized = String(value || '').split(/\\s+/).join(' ').trim();\n    const points = Array.from(normalized);\n    if (points.length <= MAX_FIELD) return normalized;\n    return points.slice(0, MAX_FIELD - 1).join('') + '…';\n  };\n  const accessibleName = (element) => {\n    const aria = element.getAttribute('aria-label');\n    if (aria) return aria;\n    const labelledBy = element.getAttribute('aria-labelledby');\n    if (labelledBy) {\n      const labelled = labelledBy\n        .split(/\\s+/)\n        .map((id) => document.getElementById(id))\n        .filter(Boolean)\n        .map((node) => node.textContent || '')\n        .join(' ');\n      if (labelled.trim()) return labelled;\n    }\n    if (element.labels && element.labels.length > 0) {\n      const labelText = Array.from(element.labels)\n        .map((label) => label.textContent || '')\n        .join(' ');\n      if (labelText.trim()) return labelText;\n    }\n    const attributes = ['placeholder', 'alt', 'title', 'name'];\n    for (const attribute of attributes) {\n      const found = element.getAttribute(attribute);\n      if (found) return found;\n    }\n    return element.textContent || '';\n  };\n  const roleOf = (element) => {\n    const explicit = element.getAttribute('role');\n    if (explicit) return explicit;\n    const tag = element.tagName.toLowerCase();\n    if (tag === 'a' && element.hasAttribute('href')) return 'link';\n    if (tag === 'input') {\n      const type = (element.getAttribute('type') || 'text').toLowerCase();\n      if (type === 'checkbox' || type === 'radio' || type === 'button' || type === 'submit') {\n        return type === 'submit' ? 'button' : type;\n      }\n      return 'textbox';\n    }\n    if (tag === 'textarea') return 'textbox';\n    if (tag === 'select') return 'combobox';\n    if (tag === 'button') return 'button';\n    if (/^h[1-6]$/.test(tag)) return 'heading';\n    return tag;\n  };\n";

pub const SNAPSHOT_HEAD: &'static str = "(() => {\n  const REF = \"data-wardian-ref\";\n  const GEN = \"data-wardian-snapshot\";\n  const MAX = ";
pub const SNAPSHOT_FLAGS: &'static str = ";\n  const INTERACTIVE_ONLY = ";
pub const SNAPSHOT_GENERATION: &'static str = ";\n  const generation = ";
pub const SNAPSHOT_SCAN: &'static str = ";\n  for (const stamped of document.querySelectorAll('[' + REF + ']')) {\n    stamped.removeAttribute(REF);\n    stamped.removeAttribute(GEN);\n  }\n  const interactiveTags = new Set([\n    'a', 'button', 'input', 'select', 'textarea', 'summary', 'option', 'label'\n  ]);\n  const interactiveRoles = new Set([\n    'button', 'link', 'checkbox', 'radio', 'textbox', 'combobox', 'listbox',\n    'menuitem', 'option', 'searchbox', 'slider', 'switch', 'tab'\n  ]);\n  const isVisible = (element) => {\n    const style = window.getComputedStyle(element);\n    if (style.visibility === 'hidden' || style.display === 'none' || style.opacity === '0') {\n      return false;\n    }\n    const rect = element.getBoundingClientRect();\n    return rect.width > 0 && rect.height > 0;\n  };\n";
pub const SNAPSHOT_TAIL: &'static str = "\n  const isInteractive = (element, role) =>\n    interactiveTags.has(element.tagName.toLowerCase())\n    || interactiveRoles.has(role)\n    || element.hasAttribute('onclick')\n    || element.tabIndex >= 0;\n  const elements = [];\n  let truncated = false;\n  let index = 0;\n  for (const element of document.querySelectorAll('*')) {\n    if (!isVisible(element)) continue;\n    const role = roleOf(element);\n    if (INTERACTIVE_ONLY && !isInteractive(element, role)) continue;\n    if (!INTERACTIVE_ONLY) {\n      const ownText = Array.from(element.childNodes)\n        .filter((node) => node.nodeType === Node.TEXT_NODE)\n        .map((node) => node.textContent || '')\n        .join('')\n        .trim();\n      if (!ownText && !isInteractive(element, role)) continue;\n    }\n    if (elements.length >= MAX) {\n      truncated = true;\n      break;\n    }\n    index += 1;\n    const elementRef = 'e' + index;\n    element.setAttribute(REF, elementRef);\n    element.setAttribute(GEN, String(generation));\n    const record = {\n      element_ref: elementRef,\n      role,\n      name: accessibleName(element),\n      value: typeof element.value === 'string' ? element.value : '',\n      enabled: !element.disabled,\n    };\n    // Only checkables report checked. Every text input also carries a\n    // `checked` property, and reporting it would put a meaningless\n    // `checked=false` on the most common element in any snapshot.\n    const inputType = (element.getAttribute('type') || '').toLowerCase();\n    if (role === 'checkbox' || role === 'radio' || role === 'switch'\n      || inputType === 'checkbox' || inputType === 'radio') {\n      record.checked = element.checked === true;\n    }\n    elements.push(record);\n  }\n  return {\n    url: window.location.href,\n    title: document.title,\n    elements,\n    truncated,\n  };\n})()";

pub const ACTION_HEAD: &'static str = "(() => {\n";
pub const ACTION_QUERY: &'static str = "\n  const matches = document.querySelectorAll(";
pub const ACTION_GUARD: &'static str = ");\n  if (matches.length === 0) return 'detached';\n  if (matches.length > 1) return 'ambiguous';\n  const node = matches[0];\n  if (clampField(roleOf(node)) !== ";
pub const ACTION_NAME: &'static str = " || clampField(accessibleName(node)) !== ";
pub const ACTION_BODY: &'static str = ") {\n    return 'changed';\n  }\n  ";
pub const ACTION_TAIL: &'static str = "\n  return 'ok';\n})()";

/// The identity helpers with the field cap written in: the guard must clamp
/// what it compares exactly as the ledger clamped what it recorded.
pub open spec fn identity_js_spec() -> Seq<char> {
    IDENTITY_HEAD@ + decimal_chars(MAX_SNAPSHOT_FIELD_CHARS as nat) + IDENTITY_TAIL@
}

pub fn identity_js() -> (r: String)
    ensures
        r@ == identity_js_spec(),
{
    let mut out: Vec<char> = Vec::new();
    push_identity_js(&mut out);
    into_string(out)
}

fn push_identity_js(out: &mut Vec<char>)
    ensures
        final(out)@ == old(out)@ + identity_js_spec(),
{
    let ghost start = out@;
    push_str_chars(out, IDENTITY_HEAD);
    push_decimal(out, MAX_SNAPSHOT_FIELD_CHARS as u64);
    push_str_chars(out, IDENTITY_TAIL);
    assert(out@ =~= start + identity_js_spec());
}

/// The walker: it clears earlier stamps, stamps each element it reports
/// with its ref and this generation, reports at most `MAX_SNAPSHOT_ELEMENTS`
/// and says when it stopped early.
pub open spec fn snapshot_expression_spec(generation: u64, interactive_only: bool) -> Seq<char> {
    SNAPSHOT_HEAD@ + decimal_chars(MAX_SNAPSHOT_ELEMENTS as nat) + SNAPSHOT_FLAGS@
        + (if interactive_only { "true"@ } else { "false"@ }) + SNAPSHOT_GENERATION@
        + decimal_chars(generation as nat) + SNAPSHOT_SCAN@ + identity_js_spec() + SNAPSHOT_TAIL@
}

/// Builds the expression injected to snapshot the page.
pub fn snapshot_expression(generation: u64, interactive_only: bool) -> (r: String)
    ensures
        r@ == snapshot_expression_spec(generation, interactive_only),
{
    let mut out: Vec<char> = Vec::new();
    push_str_chars(&mut out, SNAPSHOT_HEAD);
    push_decimal(&mut out, MAX_SNAPSHOT_ELEMENTS as u64);
    push_str_chars(&mut out, SNAPSHOT_FLAGS);
    push_str_chars(&mut out, if interactive_only { "true" } else { "false" });
    push_str_chars(&mut out, SNAPSHOT_GENERATION);
    push_decimal(&mut out, generation);
    push_str_chars(&mut out, SNAPSHOT_SCAN);
    push_identity_js(&mut out);
    push_str_chars(&mut out, SNAPSHOT_TAIL);
    assert(out@ =~= snapshot_expression_spec(generation, interactive_only));
    into_string(out)
}

/// The selector that finds an element by its ref and generation, as
/// `[data-wardian-ref="e2"][data-wardian-snapshot="7"]` with each value in
/// its debug quoting.
pub open spec fn ref_selector_spec(element_ref: Seq<char>, generation: u64) -> Seq<char> {
    "["@ + REF_ATTRIBUTE@ + "="@ + debug_string_literal(element_ref) + "]["@ + GENERATION_ATTRIBUTE@ + "="@
        + debug_string_literal(decimal_chars(generation as nat)) + "]"@
}

/// The guard: it finds exactly one element stamped with the ref at this
/// generation, refuses one whose clamped role or accessible name no longer
/// matches the snapshot, and only then runs the action's statements.
pub open spec fn action_expression_spec(element_ref: Seq<char>, generation: u64, role: Seq<char>, name: Seq<char>, body: Seq<char>) -> Seq<char> {
    ACTION_HEAD@ + identity_js_spec() + ACTION_QUERY@ + json_string_literal(ref_selector_spec(element_ref, generation))
        + ACTION_GUARD@ + json_string_literal(role) + ACTION_NAME@ + json_string_literal(name) + ACTION_BODY@ + body
        + ACTION_TAIL@
}

/// Builds the expression that performs one action against a ref.
pub fn action_expression(element_ref: &str, generation: u64, expected: &RefIdentity, body: &str) -> (r: String)
    ensures
        r@ == action_expression_spec(element_ref@, generation, expected.role@, expected.name@, body@),
{
    let mut digits: Vec<char> = Vec::new();
    push_decimal(&mut digits, generation);
    let generation_text = into_string(digits);
    let mut selector: Vec<char> = Vec::new();
    push_str_chars(&mut selector, "[");
    push_str_chars(&mut selector, REF_ATTRIBUTE);
    push_str_chars(&mut selector, "=");
    push_str_chars(&mut selector, debug_quoted(element_ref).as_str());
    push_str_chars(&mut selector, "][");
    push_str_chars(&mut selector, GENERATION_ATTRIBUTE);
    push_str_chars(&mut selector, "=");
    push_str_chars(&mut selector, debug_quoted(generation_text.as_str()).as_str());
    push_str_chars(&mut selector, "]");
    assert(selector@ =~= ref_selector_spec(element_ref@, generation));
    let selector_text = into_string(selector);
    let mut out: Vec<char> = Vec::new();
    push_str_chars(&mut out, ACTION_HEAD);
    push_identity_js(&mut out);
    push_str_chars(&mut out, ACTION_QUERY);
    push_str_chars(&mut out, json_quoted(selector_text.as_str()).as_str());
    push_str_chars(&mut out, ACTION_GUARD);
    push_str_chars(&mut out, json_quoted(expected.role.as_str()).as_str());
    push_str_chars(&mut out, ACTION_NAME);
    push_str_chars(&mut out, json_quoted(expected.name.as_str()).as_str());
    push_str_chars(&mut out, ACTION_BODY);
    push_str_chars(&mut out, body);
    push_str_chars(&mut out, ACTION_TAIL);
    assert(out@ =~= action_expression_spec(element_ref@, generation, expected.role@, expected.name@, body@));
    into_string(out)
}

} // verus!
