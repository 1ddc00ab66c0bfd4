use super::parser::{is_pair_result, is_valid_url, kv_of, parse_kv_pair, parse_url};
use std::str::FromStr;
use vstd::prelude::*;

verus! {

/// Why a command-line argument was turned down.
#[derive(Clone, Copy, Debug, PartialEq, Eq, Structural)]
pub enum ValidationError {
    /// The text is no absolute URL, or a URL without a host.
    InvalidUrl,
    /// The argument holds no `=`, so no key can be told from a value.
    MissingKey,
    /// The argument holds a key and nothing that could be its value. Splitting at the first
    /// `=` always leaves a value, if only the empty one, so no argument is turned down for
    /// this today.
    MissingValue,
}

impl ValidationError {
    /// The sentence shown to the user for this error.
    pub fn message(&self) -> (text: &'static str)
        ensures
            text@ == match *self {
                ValidationError::InvalidUrl => "Invalid URL: not an absolute URL with a host"@,
                ValidationError::MissingKey => "Invalid key-value pair: missing key"@,
                ValidationError::MissingValue => "Invalid key-value pair: missing value"@,
            },
    {
        match self {
            ValidationError::InvalidUrl => "Invalid URL: not an absolute URL with a host",
            ValidationError::MissingKey => "Invalid key-value pair: missing key",
            ValidationError::MissingValue => "Invalid key-value pair: missing value",
        }
    }
}

/// One `key=value` argument, split at its first `=`.
#[derive(Clone, Debug)]
pub struct KvPair {
    pub k: String,
    pub v: String,
}

impl View for KvPair {
    type V = (Seq<char>, Seq<char>);

    open spec fn view(&self) -> (Seq<char>, Seq<char>) {
        (self.k@, self.v@)
    }
}

impl FromStr for KvPair {
    type Err = ValidationError;

    /// Splits a `key=value` argument at its first `=`, as `parse_kv_pair` does: a text that
    /// holds an `=` gives its key and its value, one without is `MissingKey`.
    fn from_str(s: &str) -> (r: Result<Self, Self::Err>)
        ensures
            is_pair_result(r, kv_of(s@)),
    {
        parse_kv_pair(s)
    }
}

/// The keys and values of a list of pairs.
pub open spec fn pairs_view(pairs: Seq<KvPair>) -> Seq<(Seq<char>, Seq<char>)> {
    pairs.map_values(|p: KvPair| p@)
}

/// The texts of a list of arguments.
pub open spec fn args_view(args: Seq<String>) -> Seq<Seq<char>> {
    args.map_values(|a: String| a@)
}

/// The pairs that a list of `key=value` arguments stands for: each argument split at its
/// first `=`, or `MissingKey` where one of them holds no `=`.
pub open spec fn pairs_of(args: Seq<Seq<char>>) -> Result<
    Seq<(Seq<char>, Seq<char>)>,
    ValidationError,
> {
    if forall|i: int| 0 <= i < args.len() ==> (#[trigger] args[i]).contains('=') {
        Ok(Seq::new(args.len(), |i: int| kv_of(args[i])->Ok_0))
    } else {
        Err(ValidationError::MissingKey)
    }
}

/// The arguments of the `get` command.
#[derive(Clone, Debug)]
pub struct Get {
    pub url: String,
}

impl Get {
    /// A `Get` is well formed when its URL is an absolute URL with a host.
    pub open spec fn wf(&self) -> bool {
        is_valid_url(self.url@)
    }

    /// Validates the argument of `get`: the command holds `url` unchanged where it is an
    /// absolute URL with a host, and there is no command where it is not.
    pub fn new(url: &str) -> (r: Result<Get, ValidationError>)
        ensures
            is_valid_url(url@) ==> (r matches Ok(g) && g.url@ == url@ && g.wf()),
            !is_valid_url(url@) ==> r == Err::<Get, ValidationError>(ValidationError::InvalidUrl),
    {
        match parse_url(url) {
            Ok(url) => Ok(Get { url }),
            Err(e) => Err(e),
        }
    }
}

/// The arguments of the `post` command: where to send, and the fields of the body in the
/// order in which they were given.
#[derive(Clone, Debug)]
pub struct Post {
    pub url: String,
    pub body: Vec<KvPair>,
}

impl Post {
    /// A `Post` is well formed when its URL is an absolute URL with a host.
    pub open spec fn wf(&self) -> bool {
        is_valid_url(self.url@)
    }

    /// Validates the arguments of `post`, the URL first and then every `key=value` argument
    /// in turn. The first argument that fails decides the error, and then no command is
    /// returned; otherwise the command holds the URL unchanged and one pair for each
    /// argument, in the order given.
    pub fn new(url: &str, args: &Vec<String>) -> (r: Result<Post, ValidationError>)
        ensures
            !is_valid_url(url@) ==> r == Err::<Post, ValidationError>(ValidationError::InvalidUrl),
            is_valid_url(url@) ==> match pairs_of(args_view(args@)) {
                Ok(pairs) => (r matches Ok(p) && p.url@ == url@ && pairs_view(p.body@) == pairs
                    && p.wf()),
                Err(e) => r == Err::<Post, ValidationError>(e),
            },
    {
        let checked = match parse_url(url) {
            Ok(checked) => checked,
            Err(e) => {
                return Err(e);
            },
        };
        let mut body: Vec<KvPair> = Vec::new();
        let n = args.len();
        let mut i: usize = 0;
        while i < n
            invariant
                n == args.len(),
                i <= n,
                body.len() == i,
                is_valid_url(url@),
                forall|j: int| 0 <= j < i ==> (#[trigger] args_view(args@)[j]).contains('='),
                forall|j: int|
                    0 <= j < i ==> (#[trigger] body@[j])@ == kv_of(args_view(args@)[j])->Ok_0,
            decreases n - i,
        {
            match parse_kv_pair(args[i].as_str()) {
                Ok(pair) => {
                    body.push(pair);
                },
                Err(e) => {
                    proof {
                        assert(!args_view(args@)[i as int].contains('='));
                    }
                    return Err(e);
                },
            }
            i = i + 1;
        }
        proof {
            assert(pairs_view(body@) =~= pairs_of(args_view(args@))->Ok_0);
        }
        Ok(Post { url: checked, body })
    }
}

/// The command to run, with its validated arguments.
#[derive(Clone, Debug)]
pub enum HttpMethod {
    Get(Get),
    Post(Post),
}

impl HttpMethod {
    /// A command is well formed when its arguments are.
    pub open spec fn wf(&self) -> bool {
        match *self {
            HttpMethod::Get(g) => g.wf(),
            HttpMethod::Post(p) => p.wf(),
        }
    }
}

/// One invocation of the program.
#[derive(Clone, Debug)]
pub struct Httpie {
    pub method: HttpMethod,
}

impl Httpie {
    /// An invocation is well formed when its command is.
    pub open spec fn wf(&self) -> bool {
        self.method.wf()
    }
}

} // verus!
