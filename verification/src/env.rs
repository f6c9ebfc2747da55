//! Environment variable templates, rendered once per instance with the
//! instance identifier as the one template variable.

use vstd::prelude::*;
use crate::topology::EnvTemplate;

verus! {

/// liquid's error type, carried through opaquely.
#[verifier::external_type_specification]
#[verifier::external_body]
pub struct ExLiquidError(liquid::Error);

/// Relies on liquid: parses the template with the standard filter library
/// and renders it with `instance_id` as the one template variable. A filter
/// may consult more than the arguments (a date filter reads the clock), so
/// nothing is promised of the text.
#[verifier::external_body]
fn render_template(template: &str, instance_id: u16) -> Result<String, liquid::Error> {
    let parser = liquid::ParserBuilder::with_stdlib().build()?;
    let tpl = parser.parse(template)?;
    let mut globals = liquid::Object::new();
    globals.insert(
        "instance_id".to_string().into(),
        liquid::model::Value::scalar(instance_id as i64),
    );
    tpl.render(&globals)
}

/// Relies on the error's text rendering for the message shown to the user.
#[verifier::external_body]
fn template_error_text(e: &liquid::Error) -> String {
    e.to_string()
}

/// A template that would not render, by variable name and message.
#[derive(Debug)]
pub struct EnvError {
    pub name: String,
    pub message: String,
}

/// Renders every environment template for one instance. On success the
/// result pairs each template's variable name, in order, with its rendered
/// text; without templates nothing can fail and the result is the empty
/// list. Only a template that fails to render fails the call, and the error
/// names that template's variable.
pub fn compute_env_vars(templates: &Vec<EnvTemplate>, instance_id: u16) -> (r: Result<
    Vec<(String, String)>,
    EnvError,
>)
    ensures
        templates@.len() == 0 ==> r is Ok,
        r matches Ok(vars) ==> {
            &&& vars@.len() == templates@.len()
            &&& (forall|k: int|
                0 <= k < vars@.len() ==> (#[trigger] vars@[k]).0@ == templates@[k].name@)
        },
        r matches Err(e) ==> exists|k: int|
            0 <= k < templates@.len() && e.name@ == (#[trigger] templates@[k]).name@,
{
    let n = templates.len();
    let mut out: Vec<(String, String)> = Vec::new();
    let mut i: usize = 0;
    while i < n
        invariant
            0 <= i <= n,
            n == templates@.len(),
            out@.len() == i,
            forall|k: int| 0 <= k < i ==> (#[trigger] out@[k]).0@ == templates@[k].name@,
        decreases n - i,
    {
        let t = &templates[i];
        match render_template(t.template.as_str(), instance_id) {
            Ok(text) => {
                out.push((t.name.clone(), text));
            },
            Err(e) => {
                let failed = EnvError { name: t.name.clone(), message: template_error_text(&e) };
                proof {
                    assert(failed.name@ == templates@[i as int].name@);
                }
                return Err(failed);
            },
        }
        i += 1;
    }
    Ok(out)
}

} // verus!
