//! Rendering the parameterized manifest template: drawing the instance
//! password, binding the template variables, and expanding the template
//! into parsed documents.
use base64::Engine;
use base64::prelude::BASE64_STANDARD;
use rand::distributions::DistString;
use vstd::prelude::*;

verus! {

use vstd::string::StringExecFns;
use crate::manifest::{RenderedDocument, is_document_of, parse_manifest, yaml_documents};
use crate::models::{CreateDatabaseRequestModel, Config, clamp_size, clamped_size};
use crate::text::{contains_seq, contains_sub, dec_chars, u64_to_dec};

#[verifier::external_type_specification]
#[verifier::external_body]
pub struct ExTeraContext(tera::Context);

/// The variables a template context binds, each to its text value.
pub uninterp spec fn context_vars(c: tera::Context) -> Map<Seq<char>, Seq<char>>;

/// Relies on tera::Context::new: a fresh context binds no variables.
#[verifier::external_body]
pub fn context_new() -> (c: tera::Context)
    ensures
        (context_vars(c) == Map::<Seq<char>, Seq<char>>::empty()),
{
    tera::Context::new()
}

/// Relies on tera::Context::insert: binds the variable to the string
/// value, replacing any earlier binding of the same name.
#[verifier::external_body]
pub fn context_insert(c: &mut tera::Context, key: &str, value: &str)
    ensures
        context_vars(*final(c)) == context_vars(*old(c)).insert(key@, value@),
{
    c.insert(key, value)
}

/// What rendering a template with the given variables produces: the
/// expanded text, or nothing when the template is malformed or references
/// an undefined variable.
pub uninterp spec fn rendered_text(template: Seq<char>, vars: Map<Seq<char>, Seq<char>>) -> Option<
    Seq<char>,
>;

/// The name of the template function that reads the process environment.
/// Templates that mention it are refused, so that rendering stays a
/// function of the template and its variables.
pub open spec fn env_function_name() -> Seq<char> {
    "get_env"@
}

/// Relies on tera::Tera::one_off with autoescape off: renders the single
/// template against the context, failing on bad syntax or on a reference
/// to an undefined variable. With the optional time and randomness
/// builtins compiled out and environment reads excluded by the
/// precondition, the outcome depends on the template and the bound
/// variables alone.
#[verifier::external_body]
fn tera_one_off(template: &str, ctx: &tera::Context) -> (r: Option<String>)
    requires
        !contains_seq(template@, env_function_name()),
    ensures
        match r {
            Some(s) => rendered_text(template@, context_vars(*ctx)) == Some(s@),
            None => rendered_text(template@, context_vars(*ctx)) is None,
        },
{
    match tera::Tera::one_off(template, ctx, false) {
        Ok(s) => Some(s),
        Err(_) => None,
    }
}

/// Whether a character is ASCII alphanumeric.
pub open spec fn is_alnum_char(c: char) -> bool {
    ('a' <= c && c <= 'z') || ('A' <= c && c <= 'Z') || ('0' <= c && c <= '9')
}

/// Relies on rand's `Alphanumeric` distribution over the thread-local
/// generator: sixteen characters, each drawn from a-z, A-Z, 0-9. Nothing
/// more is promised of the draw: two calls may differ, and should.
#[verifier::external_body]
pub fn generate_password() -> (r: String)
    ensures
        r@.len() == 16,
        forall|i: int| 0 <= i < r@.len() ==> is_alnum_char(#[trigger] r@[i]),
{
    rand::distributions::Alphanumeric.sample_string(&mut rand::thread_rng(), 16)
}

/// The standard, padded base64 encoding of a text's UTF-8 bytes.
pub uninterp spec fn base64_of(s: Seq<char>) -> Seq<char>;

/// Relies on base64's standard-alphabet, padded engine: encodes the UTF-8
/// bytes of the input; the result depends on the input alone.
#[verifier::external_body]
pub fn base64_encode(s: &str) -> (r: String)
    ensures
        r@ == base64_of(s@),
{
    BASE64_STANDARD.encode(s.as_bytes())
}

/// The variables one create request binds for rendering: the instance
/// name, the ingress domain, the resource TTL in seconds, the base64
/// encoding of the generated root password, and the clamped storage size
/// written as `<N>Gi`.
pub open spec fn variables_map(
    name: Seq<char>,
    domain: Seq<char>,
    ttl: int,
    password: Seq<char>,
    size: int,
) -> Map<Seq<char>, Seq<char>> {
    Map::<Seq<char>, Seq<char>>::empty().insert("name"@, name).insert("domain"@, domain).insert(
        "resource_ttl"@,
        dec_chars(ttl),
    ).insert("root_password"@, base64_of(password)).insert(
        "pvc_size"@,
        dec_chars(clamped_size(size)) + "Gi"@,
    )
}

/// Bind the template variables for one create request.
///
/// The password is drawn once per request, outside this function, so that
/// every document of the rendered manifest sees the same one.
pub fn build_template_context(
    req: &CreateDatabaseRequestModel,
    config: &Config,
    password: &str,
) -> (c: tera::Context)
    ensures
        context_vars(c) == variables_map(
            req.name@,
            config.ingress_domain@,
            config.resource_ttl as int,
            password@,
            req.size as int,
        ),
{
    let mut c = context_new();
    context_insert(&mut c, "name", req.name.as_str());
    context_insert(&mut c, "domain", config.ingress_domain.as_str());
    let ttl = u64_to_dec(config.resource_ttl as u64);
    context_insert(&mut c, "resource_ttl", ttl.as_str());
    let encoded = base64_encode(password);
    context_insert(&mut c, "root_password", encoded.as_str());
    let clamped = clamp_size(req.size);
    let mut size_text = u64_to_dec(clamped as u64);
    size_text.append("Gi");
    context_insert(&mut c, "pvc_size", size_text.as_str());
    proof {
        assert(context_vars(c) =~= variables_map(
            req.name@,
            config.ingress_domain@,
            config.resource_ttl as int,
            password@,
            req.size as int,
        ));
    }
    c
}

/// Why a manifest could not be rendered.
#[derive(PartialEq, Eq, Structural, Debug)]
pub enum RenderError {
    /// The template is refused: bad syntax, an undefined variable, or a
    /// read of the process environment.
    Template,
    /// Some rendered document is not well-formed structured data.
    Parse,
}

/// Render the template with the bound variables and split the result into
/// parsed documents, in template order.
pub fn render_documents(template: &str, ctx: &tera::Context) -> (r: Result<
    Vec<RenderedDocument>,
    RenderError,
>)
    ensures
        contains_seq(template@, env_function_name()) ==> (r matches Err(e) && e is Template),
        !contains_seq(template@, env_function_name()) ==> match rendered_text(
            template@,
            context_vars(*ctx),
        ) {
            None => r matches Err(e) && e is Template,
            Some(text) => match yaml_documents(text) {
                None => r matches Err(e) && e is Parse,
                Some(vals) => r matches Ok(docs) && docs@.len() == vals.len() && (forall|i: int|
                    0 <= i < docs@.len() ==> is_document_of(#[trigger] docs@[i], vals[i])),
            },
        },
{
    if contains_sub(template, "get_env") {
        return Err(RenderError::Template);
    }
    let text = match tera_one_off(template, ctx) {
        None => {
            return Err(RenderError::Template);
        },
        Some(t) => t,
    };
    match parse_manifest(text.as_str()) {
        None => Err(RenderError::Parse),
        Some(docs) => Ok(docs),
    }
}

/// Rendering is deterministic in every variable except the generated
/// password: for one template, variables bound from one request and
/// configuration agree on everything but the password binding, and with
/// the password also fixed the rendered outcome is identical.
pub proof fn lemma_render_deterministic_but_password(
    template: Seq<char>,
    name: Seq<char>,
    domain: Seq<char>,
    ttl: int,
    size: int,
    password1: Seq<char>,
    password2: Seq<char>,
)
    ensures
        variables_map(name, domain, ttl, password1, size).remove("root_password"@)
            == variables_map(name, domain, ttl, password2, size).remove("root_password"@),
        password1 == password2 ==> rendered_text(
            template,
            variables_map(name, domain, ttl, password1, size),
        ) == rendered_text(template, variables_map(name, domain, ttl, password2, size)),
{
    assert(variables_map(name, domain, ttl, password1, size).remove("root_password"@)
        =~= variables_map(name, domain, ttl, password2, size).remove("root_password"@));
}

} // verus!
