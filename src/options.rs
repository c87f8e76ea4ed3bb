//! The decisions behind the command-line options: what an output-path
//! argument and the cache flag mean, and the names of the backends.
use vstd::prelude::*;

verus! {

/// An output destination: standard output, or a file path.
#[derive(Debug)]
pub enum PathOrDash {
    Dash,
    Path(String),
}

impl PathOrDash {
    /// `-` stands for standard output; anything else is a path.
    pub fn from_arg(s: &str) -> (r: PathOrDash)
        ensures
            s@ == seq!['-'] ==> r is Dash,
            s@ != seq!['-'] ==> (r matches PathOrDash::Path(p) && p@ == s@),
    {
        if s.unicode_len() == 1 && s.get_char(0) == '-' {
            assert(s@ =~= seq!['-']);
            PathOrDash::Dash
        } else {
            assert(s@ != seq!['-']) by {
                if s@ == seq!['-'] {
                    assert(s@[0] == '-');
                }
            }
            PathOrDash::Path(String::from_str(s))
        }
    }

    /// Applies `f` to the path, if there is one.
    pub fn map_path<F: FnOnce(&String) -> String>(&self, f: F) -> (r: PathOrDash)
        requires
            self matches PathOrDash::Path(p) ==> f.requires((&p,)),
        ensures
            self is Dash ==> r is Dash,
            self matches PathOrDash::Path(p) ==> (r matches PathOrDash::Path(q) && f.ensures((&p,), q)),
    {
        match self {
            PathOrDash::Path(p) => PathOrDash::Path(f(p)),
            PathOrDash::Dash => PathOrDash::Dash,
        }
    }
}

/// Disabling the build cache: a value that changes from run to run does it.
#[derive(Debug, Clone, Copy)]
pub struct ForceCargoBuild {
    pub data: u128,
}

impl ForceCargoBuild {
    /// The flag's value `false` forces a rebuild, by carrying the current
    /// time in milliseconds; any other value keeps the cache (zero).
    pub fn from_flag(flag: &str, now_millis: u128) -> (r: ForceCargoBuild)
        ensures
            flag@ == seq!['f', 'a', 'l', 's', 'e'] ==> r.data == now_millis,
            flag@ != seq!['f', 'a', 'l', 's', 'e'] ==> r.data == 0,
    {
        let n = flag.unicode_len();
        if n == 5 && flag.get_char(0) == 'f' && flag.get_char(1) == 'a' && flag.get_char(2) == 'l'
            && flag.get_char(3) == 's' && flag.get_char(4) == 'e' {
            assert(flag@ =~= seq!['f', 'a', 'l', 's', 'e']);
            ForceCargoBuild { data: now_millis }
        } else {
            assert(flag@ != seq!['f', 'a', 'l', 's', 'e']) by {
                if flag@ == seq!['f', 'a', 'l', 's', 'e'] {
                    assert(flag@[0] == 'f' && flag@[1] == 'a' && flag@[2] == 'l' && flag@[3] == 's'
                        && flag@[4] == 'e');
                }
            }
            ForceCargoBuild { data: 0 }
        }
    }
}

#[derive(Debug, Clone, Copy)]
pub enum Backend {
    Fstar,
    Coq,
    Easycrypt,
}

#[derive(Debug, Clone, Copy)]
pub enum LinterCommand {
    Hacspec,
    Rust,
}

pub open spec fn backend_name(b: Backend) -> Seq<char> {
    match b {
        Backend::Fstar => seq!['f', 's', 't', 'a', 'r'],
        Backend::Coq => seq!['c', 'o', 'q'],
        Backend::Easycrypt => seq!['e', 'a', 's', 'y', 'c', 'r', 'y', 'p', 't'],
    }
}

impl Backend {
    /// The backend's name, as written on the command line.
    pub fn name(&self) -> (r: String)
        ensures
            r@ == backend_name(*self),
    {
        match self {
            Backend::Fstar => {
                proof {
                    reveal_strlit("fstar");
                }
                String::from_str("fstar")
            },
            Backend::Coq => {
                proof {
                    reveal_strlit("coq");
                }
                String::from_str("coq")
            },
            Backend::Easycrypt => {
                proof {
                    reveal_strlit("easycrypt");
                }
                String::from_str("easycrypt")
            },
        }
    }
}

} // verus!
