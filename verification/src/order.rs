use vstd::prelude::*;
use vstd::string::*;

verus! {

/// Direction of the single sort column a statement may carry.
#[derive(Clone, Copy, PartialEq, Eq, Structural, Debug)]
pub enum OrderDir {
    Asc,
    Desc,
}

impl OrderDir {
    /// The keyword that stands for this direction in a statement.
    pub open spec fn token(self) -> Seq<char> {
        match self {
            OrderDir::Asc => "asc"@,
            OrderDir::Desc => "desc"@,
        }
    }

    /// The keyword as a string.
    pub fn as_str(&self) -> (s: &'static str)
        ensures
            s@ == self.token(),
    {
        match self {
            OrderDir::Asc => "asc",
            OrderDir::Desc => "desc",
        }
    }

    /// The keyword as an owned string.
    pub fn to_string(&self) -> (s: String)
        ensures
            s@ == self.token(),
    {
        match self {
            OrderDir::Asc => String::from_str("asc"),
            OrderDir::Desc => String::from_str("desc"),
        }
    }
}

} // verus!
