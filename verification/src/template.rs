//! The `tera` template engine, as far as the engine uses it, and the
//! templates that it is given.
//!
//! A template is a text with references to variables. A reference is a name
//! between `{{` and `}}`, with blanks around it at will. The template engine
//! knows more: blocks, comments, arithmetic, calls of functions. Some of
//! those make it read the environment of the process, loop without end or
//! abort, so a template that holds anything but text and references is never
//! handed to it.

use vstd::prelude::*;
use vstd::string::StringSliceAdditionalSpecFns;

verus! {

/// The byte `{`.
pub const OPEN: u8 = 0x7B;

/// The byte `}`.
pub const CLOSE: u8 = 0x7D;

/// The byte `%`, which opens a block behind `{`.
pub const BLOCK: u8 = 0x25;

/// The byte `#`, which opens a comment behind `{`.
pub const COMMENT: u8 = 0x23;

/// The blank.
pub const BLANK: u8 = 0x20;

/// A byte that a name can begin with: an ASCII letter or `_`.
pub open spec fn begins_name(b: u8) -> bool {
    0x41 <= b <= 0x5A || 0x61 <= b <= 0x7A || b == 0x5F
}

/// A byte that a name can go on with: an ASCII letter, a digit or `_`.
pub open spec fn continues_name(b: u8) -> bool {
    begins_name(b) || 0x30 <= b <= 0x39
}

/// The first place at or behind `i` that holds no blank.
pub open spec fn behind_blanks(t: Seq<u8>, i: int) -> int
    decreases t.len() - i,
{
    if 0 <= i < t.len() && t[i] == BLANK {
        behind_blanks(t, i + 1)
    } else {
        i
    }
}

/// The first place at or behind `i` that holds no byte of a name.
pub open spec fn behind_name(t: Seq<u8>, i: int) -> int
    decreases t.len() - i,
{
    if 0 <= i < t.len() && continues_name(t[i]) {
        behind_name(t, i + 1)
    } else {
        i
    }
}

/// Where the reference ends whose `{{` ends at `i`: behind blanks, a name,
/// blanks and `}}`. `None` where something else follows.
pub open spec fn reference_end(t: Seq<u8>, i: int) -> Option<int> {
    let name = behind_blanks(t, i);
    if 0 <= name < t.len() && begins_name(t[name]) {
        let end = behind_blanks(t, behind_name(t, name));
        if 0 <= end && end + 1 < t.len() && t[end] == CLOSE && t[end + 1] == CLOSE {
            Some(end + 2)
        } else {
            None
        }
    } else {
        None
    }
}

/// From `i` on, the template holds nothing but text and references to
/// variables: `{` opens no block and no comment, and behind `{{` comes a
/// reference.
pub open spec fn plain_from(t: Seq<u8>, i: int) -> bool
    decreases t.len() - i,
{
    if i < 0 || i + 1 >= t.len() {
        true
    } else if t[i] != OPEN {
        plain_from(t, i + 1)
    } else if t[i + 1] == BLOCK || t[i + 1] == COMMENT {
        false
    } else if t[i + 1] == OPEN {
        match reference_end(t, i + 2) {
            Some(end) => if end > i {
                plain_from(t, end)
            } else {
                false
            },
            None => false,
        }
    } else {
        plain_from(t, i + 1)
    }
}

/// The template holds nothing but text and references to variables.
pub open spec fn plain(t: Seq<u8>) -> bool {
    plain_from(t, 0)
}

/// Passes over blanks.
fn skip_blanks(t: &[u8], i: usize) -> (j: usize)
    requires
        i <= t@.len(),
    ensures
        j == behind_blanks(t@, i as int),
        i <= j <= t@.len(),
{
    let mut j: usize = i;
    while j < t.len() && t[j] == BLANK
        invariant
            i <= j <= t@.len(),
            behind_blanks(t@, i as int) == behind_blanks(t@, j as int),
        decreases t@.len() - j,
    {
        j += 1;
    }
    j
}

/// Passes over the bytes of a name.
fn skip_name(t: &[u8], i: usize) -> (j: usize)
    requires
        i <= t@.len(),
    ensures
        j == behind_name(t@, i as int),
        i <= j <= t@.len(),
{
    let mut j: usize = i;
    while j < t.len() && is_name_byte(t[j])
        invariant
            i <= j <= t@.len(),
            behind_name(t@, i as int) == behind_name(t@, j as int),
        decreases t@.len() - j,
    {
        j += 1;
    }
    j
}

/// Whether a name can begin with the byte.
fn is_name_start(b: u8) -> (r: bool)
    ensures
        r == begins_name(b),
{
    (0x41 <= b && b <= 0x5A) || (0x61 <= b && b <= 0x7A) || b == 0x5F
}

/// Whether a name can go on with the byte.
fn is_name_byte(b: u8) -> (r: bool)
    ensures
        r == continues_name(b),
{
    is_name_start(b) || (0x30 <= b && b <= 0x39)
}

/// Finds the end of the reference whose `{{` ends at `i`.
fn find_reference_end(t: &[u8], i: usize) -> (r: Option<usize>)
    requires
        i <= t@.len(),
    ensures
        match r {
            Some(end) => reference_end(t@, i as int) == Some(end as int) && i < end <= t@.len(),
            None => reference_end(t@, i as int) is None,
        },
{
    let name = skip_blanks(t, i);
    if name < t.len() && is_name_start(t[name]) {
        let behind = skip_name(t, name);
        let end = skip_blanks(t, behind);
        if end < t.len() && t.len() - end > 1 && t[end] == CLOSE && t[end + 1] == CLOSE {
            Some(end + 2)
        } else {
            None
        }
    } else {
        None
    }
}

/// Whether a template holds nothing but text and references to variables.
pub fn is_plain(template: &str) -> (r: bool)
    ensures
        r == plain(template.spec_bytes()),
{
    let t = template.as_bytes();
    let mut i: usize = 0;
    while i < t.len() && t.len() - i > 1
        invariant
            t@ == template.spec_bytes(),
            i <= t@.len(),
            plain(t@) == plain_from(t@, i as int),
        decreases t@.len() - i,
    {
        if t[i] != OPEN {
            i += 1;
        } else if t[i + 1] == BLOCK || t[i + 1] == COMMENT {
            return false;
        } else if t[i + 1] == OPEN {
            match find_reference_end(t, i + 2) {
                Some(end) => {
                    i = end;
                },
                None => {
                    return false;
                },
            }
        } else {
            i += 1;
        }
    }
    true
}

/// The context type of the `tera` template engine.
#[verifier::external_type_specification]
#[verifier::external_body]
pub struct ExTemplateContext(tera::Context);

/// The error type of the `tera` template engine.
#[verifier::external_type_specification]
#[verifier::external_body]
pub struct ExTemplateError(tera::Error);

/// The variables that a template context holds, each with its text.
pub uninterp spec fn held(variables: tera::Context) -> Map<Seq<char>, Seq<char>>;

/// `tera::Context::new`: a context that holds no variable.
#[verifier::external_body]
pub(crate) fn empty_template_context() -> (fresh: tera::Context)
    ensures
        held(fresh) == (Map::<Seq<char>, Seq<char>>::empty()),
{
    tera::Context::new()
}

/// `tera::Context::insert` with a text as the value: the context then holds
/// that text under that name, in place of what it held under it before, and
/// everything else as before.
#[verifier::external_body]
pub(crate) fn insert_text(target: &mut tera::Context, name: &String, value: &String)
    ensures
        held(*final(target)) == held(*old(target)).insert(name@, value@),
{
    target.insert(name.as_str(), value.as_str());
}

/// The text that the template engine renders a plain template to, with the
/// given variables and with or without escaping of their values for HTML.
/// `None` where the engine reports an error.
pub uninterp spec fn rendering(
    template: Seq<char>,
    variables: Map<Seq<char>, Seq<char>>,
    escape: bool,
) -> Option<Seq<char>>;

/// `tera::Tera::one_off`: parses the template and renders it with the
/// context. Of a plain template the outcome depends on the template, the
/// variables and the choice of escaping alone, so it has a name. Other
/// templates are left out: some make the engine abort or loop without end.
#[verifier::external_body]
pub(crate) fn one_off(template: &str, variables: &tera::Context, escape: bool) -> (outcome: Result<
    String,
    tera::Error,
>)
    requires
        plain(template.spec_bytes()),
    ensures
        outcome matches Ok(text) ==> rendering(template@, held(*variables), escape) == Some(text@),
        outcome is Err ==> rendering(template@, held(*variables), escape) is None,
{
    tera::Tera::one_off(template, variables, escape)
}

/// The `Display` text of a `tera::Error`. Nothing is claimed of it.
#[verifier::external_body]
pub(crate) fn error_text(error: &tera::Error) -> (text: String) {
    error.to_string()
}

} // verus!
