//! A thin owned wrapper around a path string, converting to and from
//! `String`.  The host side builds one from whatever the platform hands it;
//! the library only ever reads the string inside.

use vstd::prelude::*;

verus! {

/// An owned path string.
pub struct Path(pub String);

impl View for Path {
    type V = Seq<char>;

    open spec fn view(&self) -> Seq<char> {
        self.0@
    }
}

impl From<String> for Path {
    fn from(f: String) -> Self {
        Path(f)
    }
}

impl vstd::std_specs::convert::FromSpecImpl<String> for Path {
    open spec fn obeys_from_spec() -> bool {
        true
    }

    open spec fn from_spec(f: String) -> Path {
        Path(f)
    }
}

impl From<Path> for String {
    fn from(f: Path) -> Self {
        f.0
    }
}

impl vstd::std_specs::convert::FromSpecImpl<Path> for String {
    open spec fn obeys_from_spec() -> bool {
        true
    }

    open spec fn from_spec(f: Path) -> String {
        f.0
    }
}

} // verus!
