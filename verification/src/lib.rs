//! A Sieve (RFC 5228) filter library: the lexical layer of the script
//! compiler, variable-name and encoded-string parsing, and the rules the
//! interpreter applies to addresses, URIs, flags and header values.

use vstd::prelude::*;

pub mod compiler;
pub mod header;
pub mod parser;
pub mod runtime;
pub mod text;



verus! {

/// Highest number of match variables (`${0}` .. `${62}`) a script may use.
pub const MAX_MATCH_VARIABLES: u32 = 63;

/// The envelope parts a script can read or set.
#[derive(Debug, Clone, Copy, PartialEq, Eq, Structural, Hash)]
pub enum Envelope {
    From,
    To,
    ByTimeAbsolute,
    ByTimeRelative,
    ByMode,
    ByTrace,
    Notify,
    Orcpt,
    Ret,
    Envid,
}

/// The envelope part that the code `code` stands for in compiled scripts.
pub open spec fn envelope_of_code(code: u8) -> Envelope {
    if code == 0 {
        Envelope::From
    } else if code == 1 {
        Envelope::To
    } else if code == 2 {
        Envelope::ByTimeAbsolute
    } else if code == 3 {
        Envelope::ByTimeRelative
    } else if code == 4 {
        Envelope::ByMode
    } else if code == 5 {
        Envelope::ByTrace
    } else if code == 6 {
        Envelope::Notify
    } else if code == 7 {
        Envelope::Orcpt
    } else if code == 8 {
        Envelope::Ret
    } else {
        Envelope::Envid
    }
}

/// The code of an envelope part in compiled scripts.
pub open spec fn envelope_code(e: Envelope) -> u8 {
    match e {
        Envelope::From => 0,
        Envelope::To => 1,
        Envelope::ByTimeAbsolute => 2,
        Envelope::ByTimeRelative => 3,
        Envelope::ByMode => 4,
        Envelope::ByTrace => 5,
        Envelope::Notify => 6,
        Envelope::Orcpt => 7,
        Envelope::Ret => 8,
        Envelope::Envid => 9,
    }
}

impl Envelope {
    /// Decodes an envelope part; every code above 8 stands for `Envid`.
    pub fn from_code(code: u8) -> (r: Envelope)
        ensures
            r == envelope_of_code(code),
    {
        match code {
            0 => Envelope::From,
            1 => Envelope::To,
            2 => Envelope::ByTimeAbsolute,
            3 => Envelope::ByTimeRelative,
            4 => Envelope::ByMode,
            5 => Envelope::ByTrace,
            6 => Envelope::Notify,
            7 => Envelope::Orcpt,
            8 => Envelope::Ret,
            _ => Envelope::Envid,
        }
    }

    /// The code of this envelope part.
    pub fn code(&self) -> (r: u8)
        ensures
            r == envelope_code(*self),
    {
        match self {
            Envelope::From => 0,
            Envelope::To => 1,
            Envelope::ByTimeAbsolute => 2,
            Envelope::ByTimeRelative => 3,
            Envelope::ByMode => 4,
            Envelope::ByTrace => 5,
            Envelope::Notify => 6,
            Envelope::Orcpt => 7,
            Envelope::Ret => 8,
            Envelope::Envid => 9,
        }
    }
}

/// Decoding the code of an envelope part gives that part back.
pub proof fn lemma_envelope_code_roundtrip(e: Envelope)
    ensures
        envelope_of_code(envelope_code(e)) == e,
{
}

/// The script compiler's limits and the functions registered with it.
pub struct Compiler {
    pub max_script_size: usize,
    pub max_string_size: usize,
    pub max_variable_name_size: usize,
    pub max_nested_blocks: usize,
    pub max_nested_tests: usize,
    pub max_nested_foreverypart: usize,
    pub max_match_variables: usize,
    pub max_local_variables: usize,
    pub max_header_size: usize,
    pub max_includes: usize,
    pub no_capability_check: bool,
    /// Functions registered with the compiler: name, number and number of
    /// arguments.
    pub functions: Vec<(String, u32, u32)>,
}

impl Compiler {
    /// The version of compiled scripts.
    pub const VERSION: u32 = 2;

    /// A compiler with the default limits and no functions.
    pub fn new() -> (r: Compiler)
        ensures
            r.max_script_size == 1048576,
            r.max_string_size == 4096,
            r.max_variable_name_size == 32,
            r.max_nested_blocks == 15,
            r.max_nested_tests == 15,
            r.max_nested_foreverypart == 3,
            r.max_match_variables == 30,
            r.max_local_variables == 128,
            r.max_header_size == 1024,
            r.max_includes == 6,
            !r.no_capability_check,
            r.functions@.len() == 0,
    {
        Compiler {
            max_script_size: 1048576,
            max_string_size: 4096,
            max_variable_name_size: 32,
            max_nested_blocks: 15,
            max_nested_tests: 15,
            max_nested_foreverypart: 3,
            max_match_variables: 30,
            max_local_variables: 128,
            max_header_size: 1024,
            max_includes: 6,
            no_capability_check: false,
            functions: Vec::new(),
        }
    }

    /// The longest string a script may hold, in bytes (exclusive bound).
    pub fn max_string_size(&self) -> (r: usize)
        ensures
            r == self.max_string_size,
    {
        self.max_string_size
    }

    /// Sets the max script size.
    pub fn set_max_script_size(&mut self, size: usize)
        ensures
            *final(self) == (Compiler { max_script_size: size, ..*old(self) }),
    {
        self.max_script_size = size;
    }

    /// The compiler with the max script size set.
    pub fn with_max_script_size(self, size: usize) -> (r: Compiler)
        ensures
            r == (Compiler { max_script_size: size, ..self }),
    {
        let mut r = self;
        r.max_script_size = size;
        r
    }

    /// Sets the max string size.
    pub fn set_max_string_size(&mut self, size: usize)
        ensures
            *final(self) == (Compiler { max_string_size: size, ..*old(self) }),
    {
        self.max_string_size = size;
    }

    /// The compiler with the max string size set.
    pub fn with_max_string_size(self, size: usize) -> (r: Compiler)
        ensures
            r == (Compiler { max_string_size: size, ..self }),
    {
        let mut r = self;
        r.max_string_size = size;
        r
    }

    /// Sets the max variable name size.
    pub fn set_max_variable_name_size(&mut self, size: usize)
        ensures
            *final(self) == (Compiler { max_variable_name_size: size, ..*old(self) }),
    {
        self.max_variable_name_size = size;
    }

    /// The compiler with the max variable name size set.
    pub fn with_max_variable_name_size(self, size: usize) -> (r: Compiler)
        ensures
            r == (Compiler { max_variable_name_size: size, ..self }),
    {
        let mut r = self;
        r.max_variable_name_size = size;
        r
    }

    /// Sets the max nested blocks.
    pub fn set_max_nested_blocks(&mut self, size: usize)
        ensures
            *final(self) == (Compiler { max_nested_blocks: size, ..*old(self) }),
    {
        self.max_nested_blocks = size;
    }

    /// The compiler with the max nested blocks set.
    pub fn with_max_nested_blocks(self, size: usize) -> (r: Compiler)
        ensures
            r == (Compiler { max_nested_blocks: size, ..self }),
    {
        let mut r = self;
        r.max_nested_blocks = size;
        r
    }

    /// Sets the max nested tests.
    pub fn set_max_nested_tests(&mut self, size: usize)
        ensures
            *final(self) == (Compiler { max_nested_tests: size, ..*old(self) }),
    {
        self.max_nested_tests = size;
    }

    /// The compiler with the max nested tests set.
    pub fn with_max_nested_tests(self, size: usize) -> (r: Compiler)
        ensures
            r == (Compiler { max_nested_tests: size, ..self }),
    {
        let mut r = self;
        r.max_nested_tests = size;
        r
    }

    /// Sets the max nested foreverypart.
    pub fn set_max_nested_foreverypart(&mut self, size: usize)
        ensures
            *final(self) == (Compiler { max_nested_foreverypart: size, ..*old(self) }),
    {
        self.max_nested_foreverypart = size;
    }

    /// The compiler with the max nested foreverypart set.
    pub fn with_max_nested_foreverypart(self, size: usize) -> (r: Compiler)
        ensures
            r == (Compiler { max_nested_foreverypart: size, ..self }),
    {
        let mut r = self;
        r.max_nested_foreverypart = size;
        r
    }

    /// Sets the max match variables.
    pub fn set_max_match_variables(&mut self, size: usize)
        ensures
            *final(self) == (Compiler { max_match_variables: size, ..*old(self) }),
    {
        self.max_match_variables = size;
    }

    /// The compiler with the max match variables set.
    pub fn with_max_match_variables(self, size: usize) -> (r: Compiler)
        ensures
            r == (Compiler { max_match_variables: size, ..self }),
    {
        let mut r = self;
        r.max_match_variables = size;
        r
    }

    /// Sets the max local variables.
    pub fn set_max_local_variables(&mut self, size: usize)
        ensures
            *final(self) == (Compiler { max_local_variables: size, ..*old(self) }),
    {
        self.max_local_variables = size;
    }

    /// The compiler with the max local variables set.
    pub fn with_max_local_variables(self, size: usize) -> (r: Compiler)
        ensures
            r == (Compiler { max_local_variables: size, ..self }),
    {
        let mut r = self;
        r.max_local_variables = size;
        r
    }

    /// Sets the max header size.
    pub fn set_max_header_size(&mut self, size: usize)
        ensures
            *final(self) == (Compiler { max_header_size: size, ..*old(self) }),
    {
        self.max_header_size = size;
    }

    /// The compiler with the max header size set.
    pub fn with_max_header_size(self, size: usize) -> (r: Compiler)
        ensures
            r == (Compiler { max_header_size: size, ..self }),
    {
        let mut r = self;
        r.max_header_size = size;
        r
    }

    /// Sets the max includes.
    pub fn set_max_includes(&mut self, size: usize)
        ensures
            *final(self) == (Compiler { max_includes: size, ..*old(self) }),
    {
        self.max_includes = size;
    }

    /// The compiler with the max includes set.
    pub fn with_max_includes(self, size: usize) -> (r: Compiler)
        ensures
            r == (Compiler { max_includes: size, ..self }),
    {
        let mut r = self;
        r.max_includes = size;
        r
    }

    /// Sets whether capabilities are checked.
    pub fn set_no_capability_check(&mut self, value: bool)
        ensures
            *final(self) == (Compiler { no_capability_check: value, ..*old(self) }),
    {
        self.no_capability_check = value;
    }

    /// The compiler with capabilities checked or not.
    pub fn with_no_capability_check(self, value: bool) -> (r: Compiler)
        ensures
            r == (Compiler { no_capability_check: value, ..self }),
    {
        let mut r = self;
        r.no_capability_check = value;
        r
    }

    /// The compiler with the functions of `fnc_map` registered (their names,
    /// numbers and numbers of arguments); the map keeps its functions and
    /// loses its names.
    pub fn register_functions<F>(self, fnc_map: &mut FunctionMap<F>) -> (r: Compiler)
        ensures
            r.functions@ == old(fnc_map).map@,
            final(fnc_map).map@.len() == 0,
            final(fnc_map).functions@ == old(fnc_map).functions@,
            r == (Compiler { functions: r.functions, ..self }),
    {
        let mut r = self;
        let mut taken: Vec<(String, u32, u32)> = Vec::new();
        std::mem::swap(&mut taken, &mut fnc_map.map);
        r.functions = taken;
        r
    }
}

/// The functions a script may call: each name with its number and its
/// number of arguments, and the functions themselves, in the order of
/// their numbers.
pub struct FunctionMap<F> {
    pub map: Vec<(String, u32, u32)>,
    pub functions: Vec<F>,
}

/// The names of a function table as seen in contracts.
pub open spec fn entries_view(v: Seq<(String, u32, u32)>) -> Seq<(Seq<char>, u32, u32)> {
    v.map_values(|e: (String, u32, u32)| (e.0@, e.1, e.2))
}

/// The position of the entry named `name`.
pub open spec fn entry_position(v: Seq<(Seq<char>, u32, u32)>, name: Seq<char>) -> Option<int>
    decreases v.len(),
{
    if v.len() == 0 {
        None
    } else if v.last().0 == name {
        Some(v.len() - 1)
    } else {
        entry_position(v.drop_last(), name)
    }
}

/// The table with `name` bound to `(id, num_args)`: the entry of that name
/// replaced when there is one, else a new entry at the end.
pub open spec fn entry_insert(v: Seq<(Seq<char>, u32, u32)>, name: Seq<char>, id: u32, num_args: u32) -> Seq<
    (Seq<char>, u32, u32),
> {
    match entry_position(v, name) {
        Some(p) => v.update(p, (name, id, num_args)),
        None => v.push((name, id, num_args)),
    }
}

/// No name appears twice in a function table.
pub open spec fn distinct_entries(v: Seq<(Seq<char>, u32, u32)>) -> bool {
    forall|i: int, j: int| 0 <= i < j < v.len() ==> #[trigger] v[i].0 != #[trigger] v[j].0
}

proof fn lemma_entry_position(v: Seq<(Seq<char>, u32, u32)>, name: Seq<char>)
    ensures
        entry_position(v, name) matches Some(p) ==> 0 <= p < v.len() && v[p].0 == name,
        entry_position(v, name) is None ==> forall|i: int| 0 <= i < v.len() ==> v[i].0 != name,
    decreases v.len(),
{
    if v.len() > 0 && v.last().0 != name {
        lemma_entry_position(v.drop_last(), name);
        assert forall|i: int| 0 <= i < v.len() - 1 implies v[i] == v.drop_last()[i] by {}
    }
}

impl<F> FunctionMap<F> {
    /// An empty table.
    pub fn new() -> (r: FunctionMap<F>)
        ensures
            r.map@.len() == 0,
            r.functions@.len() == 0,
    {
        FunctionMap { map: Vec::new(), functions: Vec::new() }
    }

    /// The table with the function `fnc` added under `name`, taking
    /// `num_args` arguments; its number is its position among the functions.
    pub fn with_function_args(self, name: String, fnc: F, num_args: u32) -> (r: FunctionMap<F>)
        ensures
            entries_view(r.map@) == entry_insert(
                entries_view(self.map@),
                name@,
                self.functions@.len() as u32,
                num_args,
            ),
            r.functions@ == self.functions@.push(fnc),
    {
        let mut r = self;
        let id = #[verifier::truncate] (r.functions.len() as u32);
        let ghost fs = r.functions@;
        let ghost before = entries_view(r.map@);
        let mut i: usize = r.map.len();
        assert(before.take(i as int) =~= before);
        while i > 0
            invariant
                i <= r.map@.len(),
                before == entries_view(r.map@),
                r.functions@ == fs,
                fs == self.functions@,
                before == entries_view(self.map@),
                id == fs.len() as u32,
                entry_position(before, name@) == entry_position(before.take(i as int), name@),
            decreases i,
        {
            assert(before.take(i as int).drop_last() =~= before.take(i - 1));
            assert(before.take(i as int).last() == before[i - 1]);
            if crate::text::str_eq(r.map[i - 1].0.as_str(), name.as_str()) {
                let ghost nv = name@;
                r.map.set(i - 1, (name, id, num_args));
                assert(entries_view(r.map@) =~= before.update(i - 1, (nv, id, num_args)));
                r.functions.push(fnc);
                return r;
            }
            i -= 1;
        }
        assert(before.take(0) =~= Seq::<(Seq<char>, u32, u32)>::empty());
        let ghost nv = name@;
        r.map.push((name, id, num_args));
        assert(entries_view(r.map@) =~= before.push((nv, id, num_args)));
        r.functions.push(fnc);
        r
    }

    /// The table with `fnc` added under `name`, taking one argument.
    pub fn with_function(self, name: String, fnc: F) -> (r: FunctionMap<F>)
        ensures
            entries_view(r.map@) == entry_insert(entries_view(self.map@), name@, self.functions@.len() as u32, 1),
            r.functions@ == self.functions@.push(fnc),
    {
        self.with_function_args(name, fnc, 1)
    }

    /// The table with `fnc` added under `name`, taking no argument.
    pub fn with_function_no_args(self, name: String, fnc: F) -> (r: FunctionMap<F>)
        ensures
            entries_view(r.map@) == entry_insert(entries_view(self.map@), name@, self.functions@.len() as u32, 0),
            r.functions@ == self.functions@.push(fnc),
    {
        self.with_function_args(name, fnc, 0)
    }
}

/// A function table keeps each name once, and after a function is added
/// its name is bound to the new number and number of arguments.
pub proof fn lemma_entry_insert_binds(v: Seq<(Seq<char>, u32, u32)>, name: Seq<char>, id: u32, num_args: u32)
    requires
        distinct_entries(v),
    ensures
        distinct_entries(entry_insert(v, name, id, num_args)),
        ({
            let w = entry_insert(v, name, id, num_args);
            exists|p: int| 0 <= p < w.len() && #[trigger] w[p] == (name, id, num_args)
        }),
        forall|n: Seq<char>|
            n != name ==> entry_position(entry_insert(v, name, id, num_args), n) == entry_position(v, n),
{
    lemma_entry_position(v, name);
    let w = entry_insert(v, name, id, num_args);
    match entry_position(v, name) {
        Some(p) => {
            assert(w[p] == (name, id, num_args));
            assert forall|i: int, j: int| 0 <= i < j < w.len() implies #[trigger] w[i].0 != #[trigger] w[j].0 by {
                if i == p {
                    assert(v[p].0 == name);
                } else if j == p {
                    assert(v[p].0 == name);
                }
            }
            assert forall|n: Seq<char>| n != name implies entry_position(w, n) == entry_position(v, n) by {
                lemma_entry_position_update(v, p, (name, id, num_args), n);
            }
        },
        None => {
            assert(w[v.len() as int] == (name, id, num_args));
            assert forall|n: Seq<char>| n != name implies entry_position(w, n) == entry_position(v, n) by {
                assert(w.drop_last() =~= v);
            }
        },
    }
}

proof fn lemma_entry_position_update(
    v: Seq<(Seq<char>, u32, u32)>,
    p: int,
    e: (Seq<char>, u32, u32),
    n: Seq<char>,
)
    requires
        0 <= p < v.len(),
        v[p].0 != n,
        e.0 != n,
    ensures
        entry_position(v.update(p, e), n) == entry_position(v, n),
    decreases v.len(),
{
    if v.len() > 0 {
        if p < v.len() - 1 {
            assert(v.update(p, e).drop_last() =~= v.drop_last().update(p, e));
            lemma_entry_position_update(v.drop_last(), p, e, n);
        } else {
            assert(v.update(p, e).drop_last() =~= v.drop_last());
        }
    }
}

/// A metadata entry: a server annotation or a mailbox annotation.
#[derive(Debug, Clone, PartialEq, Eq, Hash)]
pub enum Metadata<T> {
    Server { annotation: T },
    Mailbox { name: T, annotation: T },
}

impl<T> Metadata<T> {
    /// A server annotation.
    pub fn server(annotation: T) -> (r: Self)
        ensures
            r == (Metadata::Server { annotation }),
    {
        Metadata::Server { annotation }
    }

    /// An annotation of the mailbox `name`.
    pub fn mailbox(name: T, annotation: T) -> (r: Self)
        ensures
            r == (Metadata::Mailbox { name, annotation }),
    {
        Metadata::Mailbox { name, annotation }
    }
}

impl From<String> for Metadata<String> {
    /// A server annotation.
    fn from(annotation: String) -> (r: Self) {
        Metadata::Server { annotation }
    }
}

impl vstd::std_specs::convert::FromSpecImpl<String> for Metadata<String> {
    open spec fn obeys_from_spec() -> bool {
        true
    }

    open spec fn from_spec(annotation: String) -> Self {
        Metadata::Server { annotation }
    }
}

impl From<(String, String)> for Metadata<String> {
    /// An annotation of a mailbox: its name, then the annotation.
    fn from(v: (String, String)) -> (r: Self) {
        Metadata::Mailbox { name: v.0, annotation: v.1 }
    }
}

impl vstd::std_specs::convert::FromSpecImpl<(String, String)> for Metadata<String> {
    open spec fn obeys_from_spec() -> bool {
        true
    }

    open spec fn from_spec(v: (String, String)) -> Self {
        Metadata::Mailbox { name: v.0, annotation: v.1 }
    }
}

/// Importance of a notification.
#[derive(Debug, Clone, Copy, PartialEq, Eq, Structural, Hash)]
pub enum Importance {
    High,
    Normal,
    Low,
}

/// How list values are compared.
#[derive(Debug, Clone, Copy, PartialEq, Eq, Structural)]
pub enum MatchAs {
    Octet,
    Lowercase,
    Number,
}

/// The result of a virus scan as seen by a script.
#[derive(Debug, Clone, Copy, PartialEq, Eq, Structural, Hash)]
pub enum VirusStatus {
    Unknown,
    Clean,
    Replaced,
    Cured,
    MaybeVirus,
    Virus,
}

} // verus!
