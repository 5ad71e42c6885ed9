//! The rules table: which programs are throttled, and what each is taken
//! to consume.

use vstd::prelude::*;
use crate::resources::resource_profile::{Budget, ResourceProfile};
use crate::text::str_eq;

verus! {

/// One line of the rules table: a program name and what one process of
/// that program is taken to consume.
pub struct Rule {
    pub program: &'static str,
    pub profile: ResourceProfile,
}

/// A line of the rules table as a mathematical value.
pub struct RuleView {
    pub program: Seq<char>,
    pub demand: Budget,
}

impl View for Rule {
    type V = RuleView;

    open spec fn view(&self) -> RuleView {
        RuleView { program: self.program@, demand: self.profile@ }
    }
}

/// The line that gives `program` a demand of `cpus` cores and `mem_gb` GiB.
pub open spec fn line(program: Seq<char>, cpus: int, mem_gb: int) -> RuleView {
    RuleView { program, demand: Budget { cpus, mem_gb } }
}

/// The rules table. A program that it does not name is not throttled.
pub open spec fn rules() -> Seq<RuleView> {
    seq![
        // C / C++ compilers
        line("cc"@, 1, 1),
        line("gcc"@, 1, 1),
        line("g++"@, 1, 1),
        line("c++"@, 1, 1),
        line("clang"@, 1, 1),
        line("clang++"@, 1, 1),
        // Rust compiler (parallel codegen, memory-hungry)
        line("rustc"@, 4, 4),
        // LLVM backend / linker
        line("llc"@, 1, 2),
        line("lld"@, 1, 2),
        line("ld.lld"@, 1, 2),
        // GNU linker / gold
        line("ld"@, 1, 1),
        line("gold"@, 1, 1),
        // Go compiler
        line("go"@, 1, 1),
        // Haskell
        line("ghc"@, 1, 4),
        // JVM-based compilers
        line("java"@, 1, 2),
        line("javac"@, 1, 2),
        line("scalac"@, 1, 2),
        line("kotlinc"@, 1, 2),
        // CUDA toolchain
        line("nvcc"@, 1, 4),
        line("ptxas"@, 1, 4),
        line("cicc"@, 1, 4),
        line("cudafe++"@, 1, 4),
        line("fatbinary"@, 1, 4),
    ]
}

/// The demand that the first line of `table` naming `program` gives it.
pub open spec fn lookup(table: Seq<RuleView>, program: Seq<char>) -> Option<Budget>
    decreases table.len(),
{
    if table.len() == 0 {
        None
    } else if table[0].program == program {
        Some(table[0].demand)
    } else {
        lookup(table.drop_first(), program)
    }
}

/// The profile of a process with the given argv, whose first element is
/// its resolved program name: what the rules table gives that name, and
/// nothing for an empty argv.
pub open spec fn profile_of(args: Seq<Seq<char>>) -> Option<Budget> {
    if args.len() == 0 {
        None
    } else {
        lookup(rules(), args[0])
    }
}

/// Every demand that the rules table hands out is non-negative.
pub proof fn lemma_lookup_is_demand(table: Seq<RuleView>, program: Seq<char>)
    requires
        forall|i: int| 0 <= i < table.len() ==> (#[trigger] table[i]).demand.is_demand(),
    ensures
        lookup(table, program) matches Some(demand) ==> demand.is_demand(),
    decreases table.len(),
{
    if table.len() > 0 && table[0].program != program {
        lemma_lookup_is_demand(table.drop_first(), program);
    }
}

/// Every profile is a demand: neither dimension is negative.
pub proof fn lemma_profile_is_demand(args: Seq<Seq<char>>)
    ensures
        profile_of(args) matches Some(demand) ==> demand.is_demand(),
{
    if args.len() > 0 {
        lemma_lookup_is_demand(rules(), args[0]);
    }
}

/// One line of the table.
fn rule(program: &'static str, cpus: i64, mem_gb: i64) -> (rule: Rule)
    ensures
        rule@ == line(program@, cpus as int, mem_gb as int),
{
    Rule { program, profile: ResourceProfile::new(cpus, mem_gb) }
}

/// The rules table, in the order in which it is searched.
pub fn rules_table() -> (table: Vec<Rule>)
    ensures
        table@.map_values(|r: Rule| r@) == rules(),
{
    let table = vec![
        rule("cc", 1, 1),
        rule("gcc", 1, 1),
        rule("g++", 1, 1),
        rule("c++", 1, 1),
        rule("clang", 1, 1),
        rule("clang++", 1, 1),
        rule("rustc", 4, 4),
        rule("llc", 1, 2),
        rule("lld", 1, 2),
        rule("ld.lld", 1, 2),
        rule("ld", 1, 1),
        rule("gold", 1, 1),
        rule("go", 1, 1),
        rule("ghc", 1, 4),
        rule("java", 1, 2),
        rule("javac", 1, 2),
        rule("scalac", 1, 2),
        rule("kotlinc", 1, 2),
        rule("nvcc", 1, 4),
        rule("ptxas", 1, 4),
        rule("cicc", 1, 4),
        rule("cudafe++", 1, 4),
        rule("fatbinary", 1, 4),
    ];
    assert(table@.map_values(|r: Rule| r@) =~= rules());
    table
}

/// Look up the resource profile for a process given its resolved argv.
/// `args[0]` is expected to already be the resolved basename.
///
/// Returns `None` if the process has no specific profile and should not be
/// throttled.
pub fn profile_for(args: &[String]) -> (profile: Option<ResourceProfile>)
    ensures
        match profile {
            Some(p) => profile_of(args.deep_view()) == Some(p@),
            None => profile_of(args.deep_view()) is None,
        },
{
    if args.len() == 0 {
        return None;
    }
    let name = args[0].as_str();
    let table = rules_table();
    let ghost views = table@.map_values(|r: Rule| r@);
    assert(args.deep_view()[0] == name@);
    assert(views.skip(0) == views);
    let mut i: usize = 0;
    while i < table.len()
        invariant
            i <= table.len(),
            args.deep_view().len() > 0,
            args.deep_view()[0] == name@,
            views == rules(),
            views == table@.map_values(|r: Rule| r@),
            lookup(views, name@) == lookup(views.skip(i as int), name@),
        decreases table.len() - i,
    {
        assert(views.skip(i as int)[0] == table@[i as int]@);
        assert(views.skip(i as int).drop_first() == views.skip(i + 1));
        if str_eq(table[i].program, name) {
            return Some(table[i].profile);
        }
        i += 1;
    }
    None
}

} // verus!
