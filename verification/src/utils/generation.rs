//! Generation of token contracts and `Move.toml` manifests, and the layout of the
//! package folder that holds them.
use crate::errors::TokenGenErrors;
use crate::foreign::{
    move_toml_text, render_move_toml, render_token_template, rendered_token, to_lowercase,
    to_uppercase,
};
use crate::text::{lower_text, upper_text};
use crate::utils::helpers::{keep_alphanumeric, sanitize_name};
use crate::utils::template::{is_plain_template, plain_template};
use crate::utils::variables::{
    EDITION, PACKAGE_VERSION, PLACEHOLDER_ADDRESS, SUB_FOLDER, SUI_PROJECT, SUI_PROJECT_SUB_DIR,
    TEST_FOLDER,
};
use vstd::prelude::*;

verus! {

/// The texts of the token contract template and of its test template.
pub struct TokenTemplates {
    /// Template of the coin module.
    pub token: String,
    /// Template of the coin module's tests.
    pub token_tests: String,
}

/// The contract that `template` renders for a token: the module is named after the
/// alphanumeric characters of the name, the coin after their lower-case form and the
/// one-time witness type after their upper-case form. A template outside the plain
/// template language renders nothing.
pub open spec fn token_text(
    template: Seq<char>,
    decimals: u8,
    symbol: Seq<char>,
    name: Seq<char>,
    description: Seq<char>,
    is_frozen: bool,
) -> Option<Seq<char>> {
    let slug = keep_alphanumeric(name);
    if plain_template(template) {
        rendered_token(
            template,
            slug,
            lower_text(slug),
            upper_text(slug),
            name,
            symbol,
            decimals,
            description,
            is_frozen,
        )
    } else {
        None
    }
}

/// The template that [`generate_token`] uses.
pub open spec fn chosen_template(templates: &TokenTemplates, is_test: bool) -> Seq<char> {
    if is_test {
        templates.token_tests@
    } else {
        templates.token@
    }
}

/// Renders the coin module (or, with `is_test`, its tests) for the given token; a
/// template outside the plain template language is refused as a template error.
pub fn generate_token(
    templates: &TokenTemplates,
    decimals: u8,
    symbol: String,
    name: String,
    description: String,
    is_frozen: bool,
    is_test: bool,
) -> (r: Result<String, TokenGenErrors>)
    ensures
        match r {
            Ok(s) => token_text(
                chosen_template(templates, is_test),
                decimals,
                symbol@,
                name@,
                description@,
                is_frozen,
            ) == Some(s@),
            Err(e) => token_text(
                chosen_template(templates, is_test),
                decimals,
                symbol@,
                name@,
                description@,
                is_frozen,
            ) is None && e == TokenGenErrors::TemplateError,
        },
{
    let slug = sanitize_name(name.as_str());
    let coin_name = to_lowercase(slug.as_str());
    let token_type = to_uppercase(slug.as_str());
    let template = if is_test {
        templates.token_tests.as_str()
    } else {
        templates.token.as_str()
    };
    if !is_plain_template(template) {
        return Err(TokenGenErrors::TemplateError);
    }
    let rendered = render_token_template(
        template,
        slug.as_str(),
        coin_name.as_str(),
        token_type.as_str(),
        name.as_str(),
        symbol.as_str(),
        decimals,
        description.as_str(),
        is_frozen,
    );
    match rendered {
        Some(text) => Ok(text),
        None => Err(TokenGenErrors::TemplateError),
    }
}

/// The `Move.toml` of a package named `package_name` that depends on the Sui framework
/// of `environment`.
pub open spec fn move_toml_of(package_name: Seq<char>, environment: Seq<char>) -> Seq<char> {
    move_toml_text(
        lower_text(package_name),
        EDITION@,
        PACKAGE_VERSION@,
        SUI_PROJECT@,
        SUI_PROJECT_SUB_DIR@,
        "framework/"@ + environment,
        package_name,
        PLACEHOLDER_ADDRESS@,
    )
}

/// Generates the `Move.toml` of a token package: the package is named after the
/// lower-cased package name, depends on `framework/<environment>` of the Sui
/// repository, and gives its own name the placeholder address `0x0`.
pub fn generate_move_toml(package_name: String, environment: String) -> (r: String)
    ensures
        r@ == move_toml_of(package_name@, environment@),
{
    let lower = to_lowercase(package_name.as_str());
    let mut rev = String::from_str("framework/");
    rev.append(environment.as_str());
    render_move_toml(
        lower.as_str(),
        EDITION,
        PACKAGE_VERSION,
        SUI_PROJECT,
        SUI_PROJECT_SUB_DIR,
        rev.as_str(),
        package_name.as_str(),
        PLACEHOLDER_ADDRESS,
    )
}

/// Lays out the folder of a generated token package.
pub struct ContractGenerator {
    base_folder: String,
}

impl View for ContractGenerator {
    type V = Seq<char>;

    /// The base folder of the package.
    closed spec fn view(&self) -> Seq<char> {
        self.base_folder@
    }
}

impl ContractGenerator {
    /// A generator for the package rooted at `base_folder`.
    pub fn new(base_folder: String) -> (r: Self)
        ensures
            r@ == base_folder@,
    {
        Self { base_folder }
    }

    /// The path of the sub-folder `sub_folder` of the package.
    pub fn dir_path(&self, sub_folder: &str) -> (r: String)
        ensures
            r@ == self@ + "/"@ + sub_folder@,
    {
        let mut r = self.base_folder.clone();
        r.append("/");
        r.append(sub_folder);
        r
    }

    /// The folders to create for the package, in order: its sources and its tests.
    pub fn create_base_folder(&self) -> (r: Vec<String>)
        ensures
            r@.len() == 2,
            r@[0]@ == self@ + "/"@ + SUB_FOLDER@,
            r@[1]@ == self@ + "/"@ + TEST_FOLDER@,
    {
        let mut r = Vec::new();
        r.push(self.dir_path(SUB_FOLDER));
        r.push(self.dir_path(TEST_FOLDER));
        r
    }

    /// The path of the contract file of the token `name` in `sub_folder`: the
    /// lower-cased alphanumeric characters of the name, with the `.move` extension.
    pub fn contract_file_path(&self, name: &str, sub_folder: &str) -> (r: String)
        ensures
            r@ == self@ + "/"@ + sub_folder@ + "/"@ + lower_text(keep_alphanumeric(name@))
                + ".move"@,
    {
        let slug = sanitize_name(name);
        let file = to_lowercase(slug.as_str());
        let mut r = self.dir_path(sub_folder);
        r.append("/");
        r.append(file.as_str());
        r.append(".move");
        r
    }

    /// The path of the package's `Move.toml`.
    pub fn move_toml_path(&self) -> (r: String)
        ensures
            r@ == self@ + "/Move.toml"@,
    {
        let mut r = self.base_folder.clone();
        r.append("/Move.toml");
        r
    }
}

/// A plain template is rendered with the caller's own details: the module named after
/// the alphanumeric characters of the name, the coin after their lower-case form, the
/// witness type after their upper-case form, and the name, symbol, decimals,
/// description and freeze status exactly as given. Any other template renders nothing.
pub proof fn lemma_token_rendered_with_given_details(
    template: Seq<char>,
    decimals: u8,
    symbol: Seq<char>,
    name: Seq<char>,
    description: Seq<char>,
    is_frozen: bool,
)
    ensures
        plain_template(template) ==> token_text(
            template,
            decimals,
            symbol,
            name,
            description,
            is_frozen,
        ) == rendered_token(
            template,
            keep_alphanumeric(name),
            lower_text(keep_alphanumeric(name)),
            upper_text(keep_alphanumeric(name)),
            name,
            symbol,
            decimals,
            description,
            is_frozen,
        ),
        !plain_template(template) ==> token_text(
            template,
            decimals,
            symbol,
            name,
            description,
            is_frozen,
        ) is None,
{
}

} // verus!
