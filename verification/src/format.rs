//! The catalogue of text formats.

use vstd::prelude::*;
use crate::text::same_text;

verus! {

/// A text format that records can be read from and written to.
#[derive(Debug, Clone, Copy, PartialEq, Eq, Structural)]
pub enum Format {
    Json,
    Yaml,
    Csv,
    Toml,
}

impl Format {
    /// The name under which the format appears in messages.
    pub open spec fn name_spec(self) -> Seq<char> {
        match self {
            Format::Json => "Json"@,
            Format::Yaml => "Yaml"@,
            Format::Csv => "Csv"@,
            Format::Toml => "Toml"@,
        }
    }

    /// The format that goes by the name `s`, if there is one.
    pub open spec fn named(s: Seq<char>) -> Option<Format> {
        if s == "Json"@ {
            Some(Format::Json)
        } else if s == "Yaml"@ {
            Some(Format::Yaml)
        } else if s == "Csv"@ {
            Some(Format::Csv)
        } else if s == "Toml"@ {
            Some(Format::Toml)
        } else {
            None
        }
    }

    /// Every format is found again under its own name.
    pub proof fn lemma_named_name(self)
        ensures
            Format::named(self.name_spec()) == Some(self),
    {
        reveal_strlit("Json");
        reveal_strlit("Yaml");
        reveal_strlit("Csv");
        reveal_strlit("Toml");
        assert("Json"@[0] == 'J');
        assert("Yaml"@[0] == 'Y');
        assert("Csv"@[0] == 'C');
        assert("Toml"@[0] == 'T');
    }

    /// The name of the format as a borrowed text.
    pub fn label(&self) -> (s: &'static str)
        ensures
            s@ == self.name_spec(),
    {
        match self {
            Format::Json => "Json",
            Format::Yaml => "Yaml",
            Format::Csv => "Csv",
            Format::Toml => "Toml",
        }
    }

    /// The name of the format.
    pub fn name(&self) -> (s: String)
        ensures
            s@ == self.name_spec(),
    {
        self.label().to_owned()
    }

    /// Looks a format up by its name.
    pub fn from_name(name: &str) -> (r: Option<Format>)
        ensures
            r == Format::named(name@),
    {
        if same_text(name, "Json") {
            Some(Format::Json)
        } else if same_text(name, "Yaml") {
            Some(Format::Yaml)
        } else if same_text(name, "Csv") {
            Some(Format::Csv)
        } else if same_text(name, "Toml") {
            Some(Format::Toml)
        } else {
            None
        }
    }
}

} // verus!
