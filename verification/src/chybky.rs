use vstd::prelude::*;
use vstd::string::*;

verus! {

/// `std::io::Error` travels through the library inside [`Chyby::NFFile`];
/// nothing in the library looks inside it.
#[verifier::external_type_specification]
#[verifier::external_body]
pub struct ExIoError(std::io::Error);

/// Errors of the library.
#[derive(Debug)]
pub enum Chyby {
    /// A bad character.
    BadChar(String),
    /// A bad input string.
    BadString(String),
    /// Something went wrong (the general error).
    BadNeco,
    /// A file could not be opened or read.
    NFFile(std::io::Error),
    /// The searched word was not found.
    NFWord(String),
}

/// The text that describes each error, as a sequence of characters.
pub open spec fn spec_zprava(e: Chyby) -> Seq<char> {
    match e {
        Chyby::BadChar(_) => "Chybný znak"@,
        Chyby::BadString(_) => "Chybný vstup"@,
        Chyby::BadNeco => "Etwa schief gelaufen"@,
        Chyby::NFFile(_) => "Soubor nenalezen"@,
        Chyby::NFWord(w) => w@ + " nenalezeno"@,
    }
}

impl Chyby {
    /// The human-readable description of the error.
    pub fn zprava(&self) -> (r: String)
        ensures
            r@ == spec_zprava(*self),
    {
        match self {
            Chyby::BadChar(_) => "Chybný znak".to_owned(),
            Chyby::BadString(_) => "Chybný vstup".to_owned(),
            Chyby::BadNeco => "Etwa schief gelaufen".to_owned(),
            Chyby::NFFile(_) => "Soubor nenalezen".to_owned(),
            Chyby::NFWord(w) => {
                let mut s = w.clone();
                s.append(" nenalezeno");
                s
            },
        }
    }
}

impl From<std::io::Error> for Chyby {
    fn from(err: std::io::Error) -> (r: Chyby) {
        Chyby::NFFile(err)
    }
}

impl vstd::std_specs::convert::FromSpecImpl<std::io::Error> for Chyby {
    open spec fn obeys_from_spec() -> bool {
        true
    }

    open spec fn from_spec(v: std::io::Error) -> Chyby {
        Chyby::NFFile(v)
    }
}

} // verus!
