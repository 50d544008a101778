//! The setting of a Cargo configuration file that moves a target directory.

use crate::path;
use crate::path::AbsPath;
use vstd::prelude::*;
use vstd::string::*;

verus! {

/// A value of a TOML document.
#[verifier::external_type_specification]
#[verifier::external_body]
pub struct ExValue(toml::Value);

/// What a TOML value holds: each way down through tables by their keys, with the text that stands
/// there, or with `None` where something other than a string does. The way of no keys leads to the
/// value itself.
pub uninterp spec fn toml_tree(value: toml::Value) -> Map<Seq<Seq<char>>, Option<Seq<char>>>;

/// What `toml::from_str` makes of a text: the document's tree, or the error's message.
pub uninterp spec fn toml_outcome(text: Seq<char>) -> Result<
    Map<Seq<Seq<char>>, Option<Seq<char>>>,
    Seq<char>,
>;

/// The part of a tree below one key.
pub open spec fn below(
    tree: Map<Seq<Seq<char>>, Option<Seq<char>>>,
    key: Seq<char>,
) -> Map<Seq<Seq<char>>, Option<Seq<char>>> {
    Map::new(
        |way: Seq<Seq<char>>| tree.contains_key(seq![key] + way),
        |way: Seq<Seq<char>>| tree[seq![key] + way],
    )
}

/// The contents of a parsed document.
pub open spec fn parsed(r: Result<toml::Value, String>) -> Result<
    Map<Seq<Seq<char>>, Option<Seq<char>>>,
    Seq<char>,
> {
    match r {
        Ok(v) => Ok(toml_tree(v)),
        Err(m) => Err(m@),
    }
}

/// `toml::from_str`, read as a `toml::Value`: which tree comes of a text, or which message its
/// error has, depends on the text alone.
#[verifier::external_body]
fn parse(text: &str) -> (r: Result<toml::Value, String>)
    ensures
        parsed(r) == toml_outcome(text@),
{
    match toml::from_str::<toml::Value>(text) {
        Ok(v) => Ok(v),
        Err(e) => Err(e.to_string()),
    }
}

/// `toml::Value::get` with a key: a table's value for that key, and nothing for a key that is not
/// there or a value that is no table.
#[verifier::external_body]
fn get<'a>(value: &'a toml::Value, key: &str) -> (r: Option<&'a toml::Value>)
    ensures
        r is Some <==> toml_tree(*value).contains_key(seq![key@]),
        r matches Some(v) ==> toml_tree(*v) == below(toml_tree(*value), key@),
{
    value.get(key)
}

/// `toml::Value::as_str`: the text of a string, and nothing for any other value.
#[verifier::external_body]
fn as_str(value: &toml::Value) -> (r: Option<&str>)
    ensures
        toml_tree(*value).contains_key(Seq::empty()) ==> match r {
            Some(s) => toml_tree(*value)[Seq::empty()] == Some(s@),
            None => toml_tree(*value)[Seq::empty()] == None::<Seq<char>>,
        },
{
    value.as_str()
}

/// Why a configuration file cannot be used.
pub enum ConfigError {
    /// It is not TOML, as this message says.
    Syntax(String),
    /// The target directory is not a string.
    NotAString,
}

/// Why a configuration file cannot be used, as a value.
pub enum Fault {
    Syntax(Seq<char>),
    NotAString,
}

impl View for ConfigError {
    type V = Fault;

    open spec fn view(&self) -> Fault {
        match *self {
            ConfigError::Syntax(m) => Fault::Syntax(m@),
            ConfigError::NotAString => Fault::NotAString,
        }
    }
}

/// The contents of a setting that was read.
pub open spec fn read(r: Result<Option<String>, ConfigError>) -> Result<Option<Seq<char>>, Fault> {
    match r {
        Ok(Some(s)) => Ok(Some(s@)),
        Ok(None) => Ok(None),
        Err(e) => Err(e@),
    }
}

/// What is set where nothing (`None`), something other than a string (`Some(None)`) or a string
/// stands.
pub open spec fn setting(found: Option<Option<Seq<char>>>) -> Result<Option<Seq<char>>, Fault> {
    match found {
        None => Ok(None),
        Some(Some(s)) => Ok(Some(s)),
        Some(None) => Err(Fault::NotAString),
    }
}

/// The target directory that a document sets: the string under `target-dir` in `build`.
pub open spec fn target_dir(tree: Map<Seq<Seq<char>>, Option<Seq<char>>>) -> Result<
    Option<Seq<char>>,
    Fault,
> {
    let way = seq!["build"@, "target-dir"@];
    if tree.contains_key(seq!["build"@]) && tree.contains_key(way) {
        setting(Some(tree[way]))
    } else {
        setting(None)
    }
}

/// The target directory that a text sets.
pub open spec fn configured(text: Seq<char>) -> Result<Option<Seq<char>>, Fault> {
    match toml_outcome(text) {
        Ok(tree) => target_dir(tree),
        Err(m) => Err(Fault::Syntax(m)),
    }
}

/// What was found, with the contents of its text.
pub open spec fn found_text(found: Option<Option<&str>>) -> Option<Option<Seq<char>>> {
    match found {
        None => None,
        Some(None) => Some(None),
        Some(Some(s)) => Some(Some(s@)),
    }
}

/// Decides what is set where nothing, something other than a string or a string was found.
pub fn interpret(found: Option<Option<&str>>) -> (r: Result<Option<String>, ConfigError>)
    ensures
        read(r) == setting(found_text(found)),
{
    match found {
        None => Ok(None),
        Some(None) => Err(ConfigError::NotAString),
        Some(Some(s)) => Ok(Some(s.to_owned())),
    }
}

/// Reads the target directory from a document.
pub fn document_target_dir(document: &toml::Value) -> (r: Result<Option<String>, ConfigError>)
    ensures
        read(r) == target_dir(toml_tree(*document)),
{
    let ghost tree = toml_tree(*document);
    match get(document, "build") {
        None => interpret(None),
        Some(build) => {
            proof {
                assert(seq!["build"@] + seq!["target-dir"@] =~= seq!["build"@, "target-dir"@]);
            }
            match get(build, "target-dir") {
                None => interpret(None),
                Some(value) => {
                    proof {
                        let none = Seq::<Seq<char>>::empty();
                        assert(seq!["target-dir"@] + none =~= seq!["target-dir"@]);
                        assert(toml_tree(*value).contains_key(none));
                        assert(toml_tree(*value)[none] == tree[seq!["build"@, "target-dir"@]]);
                    }
                    interpret(Some(as_str(value)))
                },
            }
        },
    }
}

/// Reads the target directory from the text of a configuration file.
pub fn text_target_dir(text: &str) -> (r: Result<Option<String>, ConfigError>)
    ensures
        read(r) == configured(text@),
{
    match parse(text) {
        Ok(document) => document_target_dir(&document),
        Err(m) => Err(ConfigError::Syntax(m)),
    }
}

/// What is said of a file that cannot be used.
pub open spec fn complaint(fault: Fault, file: Seq<Seq<u8>>) -> Seq<char> {
    match fault {
        Fault::Syntax(m) => "invalid "@ + path::display(file) + ": "@ + m,
        Fault::NotAString => "build.target-dir must be a string"@,
    }
}

impl ConfigError {
    /// Says why `file` cannot be used.
    pub fn message(&self, file: &AbsPath) -> (r: String)
        ensures
            r@ == complaint(self@, file@),
    {
        match self {
            ConfigError::Syntax(m) => {
                let mut out = "invalid ".to_owned();
                out.append(file.display().as_str());
                out.append(": ");
                out.append(m.as_str());
                out
            },
            ConfigError::NotAString => "build.target-dir must be a string".to_owned(),
        }
    }
}

} // verus!
