//! The variables that templates are rendered with.
//!
//! A context is built once from three layers: the facts about the platform,
//! the global variables and the variables of one manifest. A later layer
//! overrides an earlier one. After that it is only read.

use crate::bindings::{bindings, lemma_bindings_concat, lookup};
use crate::errors::{ActionError, ActionErrorView};
use crate::template::{
    empty_template_context, error_text, held, insert_text, is_plain, one_off, plain, rendering,
};
use vstd::prelude::*;
use vstd::string::{StringExecFns, StringSliceAdditionalSpecFns};

verus! {

/// What the engine knows of the machine it runs on.
#[derive(Debug)]
pub struct Platform {
    /// The family of the operating system.
    pub os_family: String,
    /// The architecture of the processor.
    pub arch: String,
}

/// The variables of one manifest, merged and ready for rendering.
#[derive(Debug)]
pub struct VariableContext {
    platform: String,
    entries: Vec<(String, String)>,
}

/// A [`VariableContext`] as the contracts see it.
pub ghost struct VariableContextView {
    /// The platform whose default provider unpinned actions use.
    pub platform: Seq<char>,
    /// The value of every variable.
    pub variables: Map<Seq<char>, Seq<char>>,
}

impl View for VariableContext {
    type V = VariableContextView;

    closed spec fn view(&self) -> VariableContextView {
        VariableContextView { platform: self.platform@, variables: bindings(self.entries@) }
    }
}

/// The variables that state the facts about the platform.
pub open spec fn facts(os_family: Seq<char>, arch: Seq<char>) -> Map<Seq<char>, Seq<char>> {
    Map::<Seq<char>, Seq<char>>::empty().insert("os_family"@, os_family).insert("arch"@, arch)
}

/// The three layers merged: a manifest's variables override the global ones,
/// and both override the facts about the platform.
pub open spec fn merged(
    platform: Platform,
    global: Seq<(String, String)>,
    local: Seq<(String, String)>,
) -> Map<Seq<char>, Seq<char>> {
    facts(platform.os_family@, platform.arch@).union_prefer_right(
        bindings(global),
    ).union_prefer_right(bindings(local))
}

/// A variable has the value that the last layer that holds it gives it: that
/// of the manifest, else the global one, else the fact about the platform.
pub proof fn law_later_layers_override(
    platform: Platform,
    global: Seq<(String, String)>,
    local: Seq<(String, String)>,
    name: Seq<char>,
)
    ensures
        merged(platform, global, local).contains_key(name) <==> bindings(local).contains_key(name)
            || bindings(global).contains_key(name) || facts(
            platform.os_family@,
            platform.arch@,
        ).contains_key(name),
        bindings(local).contains_key(name) ==> merged(platform, global, local)[name] == bindings(
            local,
        )[name],
        !bindings(local).contains_key(name) && bindings(global).contains_key(name) ==> merged(
            platform,
            global,
            local,
        )[name] == bindings(global)[name],
        !bindings(local).contains_key(name) && !bindings(global).contains_key(name) && facts(
            platform.os_family@,
            platform.arch@,
        ).contains_key(name) ==> merged(platform, global, local)[name] == facts(
            platform.os_family@,
            platform.arch@,
        )[name],
{
}

/// What is reported of a template that holds more than text and references.
pub open spec fn refusal() -> Seq<char> {
    "invalid template: only text and {{ name }} references are rendered"@
}

/// What rendering returns for each outcome of the template engine: the text
/// as it is, or the engine's error as a template error.
pub fn rendered(outcome: Result<String, tera::Error>) -> (r: Result<String, ActionError>)
    ensures
        match outcome {
            Ok(text) => r == Ok::<String, ActionError>(text),
            Err(_) => r matches Err(ActionError::TemplateError { .. }),
        },
{
    match outcome {
        Ok(text) => Ok(text),
        Err(error) => Err(ActionError::TemplateError { message: error_text(&error) }),
    }
}

/// Appends a copy of every entry of `from` to `to`.
fn extend(to: &mut Vec<(String, String)>, from: &Vec<(String, String)>)
    ensures
        final(to)@ == old(to)@ + from@,
{
    let mut i: usize = 0;
    while i < from.len()
        invariant
            i <= from.len(),
            to@ == old(to)@ + from@.take(i as int),
        decreases from.len() - i,
    {
        to.push((from[i].0.clone(), from[i].1.clone()));
        i += 1;
        assert(to@ =~= old(to)@ + from@.take(i as int));
    }
    assert(from@.take(from.len() as int) =~= from@);
}

impl VariableContext {
    /// Merges the three layers of variables, later ones overriding.
    pub fn new(platform: &Platform, global: &Vec<(String, String)>, local: &Vec<
        (String, String),
    >) -> (context: VariableContext)
        ensures
            context@.platform == platform.os_family@,
            context@.variables == merged(*platform, global@, local@),
    {
        let mut entries: Vec<(String, String)> = Vec::new();
        entries.push((String::from_str("os_family"), platform.os_family.clone()));
        entries.push((String::from_str("arch"), platform.arch.clone()));
        let ghost base = entries@;
        proof {
            assert(base.drop_last().drop_last() =~= Seq::<(String, String)>::empty());
            reveal_with_fuel(bindings, 3);
            assert(bindings(base) =~= facts(platform.os_family@, platform.arch@));
        }
        extend(&mut entries, global);
        extend(&mut entries, local);
        proof {
            lemma_bindings_concat(base, global@);
            lemma_bindings_concat(base + global@, local@);
        }
        VariableContext { platform: platform.os_family.clone(), entries }
    }

    /// The platform that the context was built for.
    pub fn platform(&self) -> (platform: &String)
        ensures
            platform@ == self@.platform,
    {
        &self.platform
    }

    /// The value of a variable.
    pub fn get(&self, name: &String) -> (r: Option<&String>)
        ensures
            match r {
                Some(value) => self@.variables.contains_key(name@) && self@.variables[name@]
                    == value@,
                None => !self@.variables.contains_key(name@),
            },
    {
        lookup(&self.entries, name)
    }

    /// The context as the template engine takes it: it holds exactly the
    /// variables of this context.
    pub fn template_context(&self) -> (filled: tera::Context)
        ensures
            held(filled) == self@.variables,
    {
        let mut context = empty_template_context();
        let mut i: usize = 0;
        while i < self.entries.len()
            invariant
                i <= self.entries.len(),
                held(context) == bindings(self.entries@.take(i as int)),
            decreases self.entries.len() - i,
        {
            insert_text(&mut context, &self.entries[i].0, &self.entries[i].1);
            i += 1;
            proof {
                let upto = self.entries@.take(i as int);
                assert(upto.drop_last() =~= self.entries@.take(i - 1));
            }
        }
        assert(self.entries@.take(self.entries.len() as int) =~= self.entries@);
        context
    }

    /// Renders a template with the variables of this context, their values
    /// as they are (nothing is escaped). The policy is strict: a template
    /// that cannot be rendered is an error, never an empty text.
    ///
    /// A template that holds more than text and references to variables is
    /// refused. A plain template is handed to the template engine; what the
    /// engine renders is returned, and what it reports (an undefined
    /// variable, a reference that it cannot read) is a template error.
    pub fn render(&self, template: &str) -> (r: Result<String, ActionError>)
        ensures
            match r {
                Ok(text) => plain(template.spec_bytes()) && rendering(
                    template@,
                    self@.variables,
                    false,
                ) == Some(text@),
                Err(e) => {
                    &&& e is TemplateError
                    &&& plain(template.spec_bytes()) ==> rendering(
                        template@,
                        self@.variables,
                        false,
                    ) is None
                    &&& !plain(template.spec_bytes()) ==> e@ == ActionErrorView::TemplateError {
                        message: refusal(),
                    }
                },
            },
    {
        if !is_plain(template) {
            return Err(
                ActionError::TemplateError {
                    message: String::from_str(
                        "invalid template: only text and {{ name }} references are rendered",
                    ),
                },
            );
        }
        let context = self.template_context();
        rendered(one_off(template, &context, false))
    }
}

} // verus!
