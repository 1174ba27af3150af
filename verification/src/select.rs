//! Choosing what to work on: the programme a section name picks, and
//! the spec files that `--spec section:path` arguments assign.

use vstd::prelude::*;

use crate::elf::parser::BpfProgram;
use crate::text::{chars_of, join_with, push_str, str_eq};
use crate::verify::scan::{find, find_in, slice_of, string_of};

verus! {

/// The section names of the programmes, joined with `, `.
pub open spec fn available_of(names: Seq<Seq<char>>) -> Seq<char> {
    join_with(names, ", "@)
}

pub open spec fn section_names(programs: Seq<BpfProgram>) -> Seq<Seq<char>> {
    programs.map_values(|p: BpfProgram| p.section_name@)
}

/// The position of the first programme of section `name`.
#[verifier::opaque]
pub open spec fn program_index(programs: Seq<BpfProgram>, name: Seq<char>) -> Option<int> {
    if exists|i: int| 0 <= i < programs.len() && programs[i].section_name@ == name {
        Some(choose|i: int| 0 <= i < programs.len() && programs[i].section_name@ == name
            && forall|j: int| 0 <= j < i ==> programs[j].section_name@ != name)
    } else {
        None
    }
}

/// The programme to work on: the first of the named section; without a
/// name, the only one. Otherwise the error message says why, listing the
/// sections there are.
pub open spec fn selection_of(programs: Seq<BpfProgram>, section: Option<Seq<char>>) -> Result<int, Seq<char>> {
    let avail = available_of(section_names(programs));
    match section {
        Some(name) => match program_index(programs, name) {
            Some(i) => Ok(i),
            None => Err("section '"@ + name + "' not found. available: "@ + avail),
        },
        None => if programs.len() == 1 {
            Ok(0)
        } else if programs.len() == 0 {
            Err("no programme sections found"@)
        } else {
            Err("multiple programme sections found, use --section to select one: "@ + avail)
        },
    }
}

fn available(programs: &[BpfProgram]) -> (r: String)
    ensures
        r@ == available_of(section_names(programs@)),
{
    let ghost names = section_names(programs@);
    let mut s = String::new();
    let mut i: usize = 0;
    assert(names.take(0) =~= Seq::<Seq<char>>::empty());
    while i < programs.len()
        invariant
            i <= programs@.len(),
            names == section_names(programs@),
            s@ == join_with(names.take(i as int), ", "@),
        decreases programs@.len() - i,
    {
        proof {
            crate::text::lemma_join_push(names.take(i as int), ", "@, names[i as int]);
            assert(names.take(i + 1) =~= names.take(i as int).push(names[i as int]));
        }
        if i > 0 {
            push_str(&mut s, ", ");
        }
        push_str(&mut s, programs[i].section_name.as_str());
        i = i + 1;
    }
    assert(names.take(i as int) =~= names);
    s
}

/// The position of the programme to work on (see `selection_of`).
pub fn select_index(programs: &[BpfProgram], section: Option<&str>) -> (r: Result<usize, String>)
    ensures
        match selection_of(
            programs@,
            match section {
                Some(n) => Some(n@),
                None => None,
            },
        ) {
            Ok(i) => r matches Ok(k) && k == i && i < programs@.len(),
            Err(m) => r matches Err(e) && e@ == m,
        },
{
    match section {
        Some(name) => {
            let mut i: usize = 0;
            while i < programs.len()
                invariant
                    i <= programs@.len(),
                    section == Some(name),
                    forall|j: int| 0 <= j < i ==> programs@[j].section_name@ != name@,
                decreases programs@.len() - i,
            {
                if str_eq(programs[i].section_name.as_str(), name) {
                    proof {
                        reveal(program_index);
                    }
                    let ghost w = choose|x: int| 0 <= x < programs@.len() && programs@[x].section_name@ == name@
                        && forall|j: int| 0 <= j < x ==> programs@[j].section_name@ != name@;
                    assert(0 <= i < programs@.len() && programs@[i as int].section_name@ == name@);
                    assert(w == i) by {
                        if w < i {
                            assert(programs@[w].section_name@ != name@);
                        } else if w > i {
                            assert(programs@[i as int].section_name@ != name@);
                        }
                    }
                    assert(program_index(programs@, name@) == Some(i as int));
                    assert(selection_of(programs@, Some(name@)) == Ok::<int, Seq<char>>(i as int));
                    return Ok(i);
                }
                i = i + 1;
            }
            proof {
                reveal(program_index);
            }
            let mut m = String::new();
            push_str(&mut m, "section '");
            push_str(&mut m, name);
            push_str(&mut m, "' not found. available: ");
            let a = available(programs);
            push_str(&mut m, a.as_str());
            assert(m@ =~= "section '"@ + name@ + "' not found. available: "@ + available_of(section_names(programs@)));
            Err(m)
        },
        None => if programs.len() == 1 {
            Ok(0)
        } else if programs.len() == 0 {
            Err("no programme sections found".to_owned())
        } else {
            let mut m = String::new();
            push_str(&mut m, "multiple programme sections found, use --section to select one: ");
            let a = available(programs);
            push_str(&mut m, a.as_str());
            Err(m)
        },
    }
}

/// Pick the programme to work on (see `selection_of`).
pub fn find_program<'a>(programs: &'a [BpfProgram], section: Option<&str>) -> (r: Result<&'a BpfProgram, String>)
    ensures
        match selection_of(
            programs@,
            match section {
                Some(n) => Some(n@),
                None => None,
            },
        ) {
            Ok(i) => r matches Ok(p) && 0 <= i < programs@.len() && *p == programs@[i],
            Err(m) => r matches Err(e) && e@ == m,
        },
{
    match select_index(programs, section) {
        Ok(i) => Ok(&programs[i]),
        Err(e) => Err(e),
    }
}

/// The programmes each named section picks, in order; the error of the
/// first name that picks none.
pub open spec fn selections_of(programs: Seq<BpfProgram>, names: Seq<Seq<char>>) -> Result<Seq<int>, Seq<char>>
    decreases names.len(),
{
    if names.len() == 0 {
        Ok(Seq::empty())
    } else {
        match selections_of(programs, names.drop_last()) {
            Err(m) => Err(m),
            Ok(is) => match selection_of(programs, Some(names.last())) {
                Ok(i) => Ok(is.push(i)),
                Err(m) => Err(m),
            },
        }
    }
}

/// The programmes a run works on: all of them where no section is named,
/// else those the named sections pick (see `selections_of`).
pub open spec fn chosen_of(programs: Seq<BpfProgram>, sections: Seq<Seq<char>>) -> Result<Seq<int>, Seq<char>> {
    if sections.len() == 0 {
        Ok(Seq::new(programs.len(), |i: int| i))
    } else {
        selections_of(programs, sections)
    }
}

/// The positions of the programmes a run works on (see `chosen_of`).
pub fn select_programs(programs: &[BpfProgram], sections: &[String]) -> (r: Result<Vec<usize>, String>)
    ensures
        match chosen_of(programs@, sections@.map_values(|s: String| s@)) {
            Ok(is) => r matches Ok(v) && v@.len() == is.len() && forall|k: int|
                0 <= k < is.len() ==> v@[k] == is[k] && 0 <= is[k] < programs@.len(),
            Err(m) => r matches Err(e) && e@ == m,
        },
{
    let ghost names = sections@.map_values(|s: String| s@);
    let mut out: Vec<usize> = Vec::new();
    if sections.len() == 0 {
        let mut i: usize = 0;
        while i < programs.len()
            invariant
                i <= programs@.len(),
                out@.len() == i,
                forall|k: int| 0 <= k < i ==> out@[k] == k,
            decreases programs@.len() - i,
        {
            out.push(i);
            i = i + 1;
        }
        return Ok(out);
    }
    let mut j: usize = 0;
    assert(names.take(0) =~= Seq::<Seq<char>>::empty());
    assert(out@.map_values(|x: usize| x as int) =~= Seq::<int>::empty());
    while j < sections.len()
        invariant
            j <= sections@.len(),
            names == sections@.map_values(|s: String| s@),
            selections_of(programs@, names.take(j as int)) == Ok::<Seq<int>, Seq<char>>(
                out@.map_values(|x: usize| x as int),
            ),
            forall|k: int| 0 <= k < out@.len() ==> out@[k] < programs@.len(),
        decreases sections@.len() - j,
    {
        let ghost before = out@.map_values(|x: usize| x as int);
        proof {
            lemma_selections_step(programs@, names, j as int);
        }
        let name = sections[j].as_str();
        assert(name@ == names[j as int]);
        match select_index(programs, Some(name)) {
            Ok(i) => {
                assert(selection_of(programs@, Some(names[j as int])) == Ok::<int, Seq<char>>(i as int));
                out.push(i);
                assert(out@.map_values(|x: usize| x as int) =~= before.push(i as int));
                assert(selections_of(programs@, names.take(j + 1)) == Ok::<Seq<int>, Seq<char>>(before.push(i as int)));
            },
            Err(e) => {
                assert(selections_of(programs@, names.take(j + 1)) is Err);
                proof {
                    lemma_selections_err(programs@, names, j as int + 1);
                }
                return Err(e);
            },
        }
        j = j + 1;
    }
    assert(names.take(j as int) =~= names);
    Ok(out)
}

/// Selecting with one more name.
proof fn lemma_selections_step(programs: Seq<BpfProgram>, names: Seq<Seq<char>>, j: int)
    requires
        0 <= j < names.len(),
    ensures
        selections_of(programs, names.take(j + 1)) == match selections_of(programs, names.take(j)) {
            Err(m) => Err(m),
            Ok(is) => match selection_of(programs, Some(names[j])) {
                Ok(i) => Ok(is.push(i)),
                Err(m) => Err(m),
            },
        },
{
    assert(names.take(j + 1).drop_last() =~= names.take(j));
    assert(names.take(j + 1).last() == names[j]);
}

/// Once a name picks no programme, the selection of every longer list of
/// names fails with its error.
proof fn lemma_selections_err(programs: Seq<BpfProgram>, names: Seq<Seq<char>>, j: int)
    requires
        1 <= j <= names.len(),
        selections_of(programs, names.take(j)) is Err,
    ensures
        selections_of(programs, names) == selections_of(programs, names.take(j)),
    decreases names.len() - j,
{
    if j < names.len() {
        assert(names.take(j + 1).drop_last() =~= names.take(j));
        lemma_selections_err(programs, names, j + 1);
    } else {
        assert(names.take(j) =~= names);
    }
}

/// A `--spec` argument's section and path: the text before and after its
/// first `:`.
pub open spec fn spec_arg_of(s: Seq<char>) -> Option<(Seq<char>, Seq<char>)> {
    match find(s, seq![':']) {
        Some(p) => Some((s.take(p), s.skip(p + 1))),
        None => None,
    }
}

/// The section/path pairs of `--spec` arguments, in order (a later pair
/// for a section overrides an earlier one), or the message for the first
/// argument without a `:`.
pub open spec fn spec_args_of(specs: Seq<Seq<char>>) -> Result<Seq<(Seq<char>, Seq<char>)>, Seq<char>>
    decreases specs.len(),
{
    if specs.len() == 0 {
        Ok(Seq::empty())
    } else {
        match spec_args_of(specs.drop_last()) {
            Err(e) => Err(e),
            Ok(ps) => match spec_arg_of(specs.last()) {
                Some(p) => Ok(ps.push(p)),
                None => Err("invalid --spec format '"@ + specs.last() + "': expected section:path.fst"@),
            },
        }
    }
}

/// Parse `--spec section:path` arguments (see `spec_args_of`).
pub fn parse_spec_args(specs: &[String]) -> (r: Result<Vec<(String, String)>, String>)
    ensures
        match spec_args_of(specs@.map_values(|s: String| s@)) {
            Ok(ps) => r matches Ok(v) && v@.map_values(|p: (String, String)| (p.0@, p.1@)) == ps,
            Err(m) => r matches Err(e) && e@ == m,
        },
{
    let ghost sv = specs@.map_values(|s: String| s@);
    let mut out: Vec<(String, String)> = Vec::new();
    let colon = vec![':'];
    assert(colon@ =~= seq![':']);
    let mut i: usize = 0;
    assert(sv.take(0) =~= Seq::<Seq<char>>::empty());
    assert(out@.map_values(|p: (String, String)| (p.0@, p.1@)) =~= Seq::empty());
    while i < specs.len()
        invariant
            i <= specs@.len(),
            sv == specs@.map_values(|s: String| s@),
            colon@ == seq![':'],
            spec_args_of(sv.take(i as int)) == Ok::<Seq<(Seq<char>, Seq<char>)>, Seq<char>>(
                out@.map_values(|p: (String, String)| (p.0@, p.1@)),
            ),
        decreases specs@.len() - i,
    {
        assert(sv.take(i + 1).drop_last() =~= sv.take(i as int));
        assert(sv.take(i + 1).last() == specs@[i as int]@);
        let v = chars_of(specs[i].as_str());
        let vlen = v.len();
        match find_in(v.as_slice(), colon.as_slice()) {
            Some(p) => {
                proof {
                    crate::verify::scan::lemma_find_from_bounds(v@, seq![':'], 0);
                    assert(find(v@, seq![':']) == Some(p as int));
                    assert(p + 1 <= v@.len());
                }
                let a = slice_of(v.as_slice(), 0, p);
                let b = slice_of(v.as_slice(), p + 1, v.len());
                assert(a@ =~= v@.take(p as int));
                assert(b@ =~= v@.skip(p + 1));
                let ghost o0 = out@.map_values(|p: (String, String)| (p.0@, p.1@));
                out.push((string_of(a.as_slice()), string_of(b.as_slice())));
                assert(out@.map_values(|p: (String, String)| (p.0@, p.1@)) =~= o0.push((a@, b@)));
            },
            None => {
                let mut m = String::new();
                push_str(&mut m, "invalid --spec format '");
                push_str(&mut m, specs[i].as_str());
                push_str(&mut m, "': expected section:path.fst");
                proof {
                    lemma_spec_args_err(sv, i as int + 1, sv.len() as int);
                }
                assert(sv.take(sv.len() as int) =~= sv);
                return Err(m);
            },
        }
        i = i + 1;
    }
    assert(sv.take(i as int) =~= sv);
    Ok(out)
}

proof fn lemma_spec_args_err(sv: Seq<Seq<char>>, a: int, b: int)
    requires
        0 < a <= b <= sv.len(),
        spec_args_of(sv.take(a)) is Err,
    ensures
        spec_args_of(sv.take(b)) == spec_args_of(sv.take(a)),
    decreases b - a,
{
    if b > a {
        lemma_spec_args_err(sv, a, b - 1);
        assert(sv.take(b).drop_last() =~= sv.take(b - 1));
    }
}

/// The spec path given for a section: the last pair naming it.
pub open spec fn spec_for_of(pairs: Seq<(Seq<char>, Seq<char>)>, section: Seq<char>) -> Option<Seq<char>>
    decreases pairs.len(),
{
    if pairs.len() == 0 {
        None
    } else if pairs.last().0 == section {
        Some(pairs.last().1)
    } else {
        spec_for_of(pairs.drop_last(), section)
    }
}

/// The spec path given for a section (see `spec_for_of`).
pub fn spec_for<'a>(pairs: &'a Vec<(String, String)>, section: &str) -> (r: Option<&'a String>)
    ensures
        match r {
            Some(p) => spec_for_of(pairs@.map_values(|p: (String, String)| (p.0@, p.1@)), section@) == Some(p@),
            None => spec_for_of(pairs@.map_values(|p: (String, String)| (p.0@, p.1@)), section@) is None,
        },
{
    let ghost pv = pairs@.map_values(|p: (String, String)| (p.0@, p.1@));
    let mut k: usize = pairs.len();
    assert(pv.take(k as int) =~= pv);
    while k > 0
        invariant
            k <= pairs@.len(),
            pv == pairs@.map_values(|p: (String, String)| (p.0@, p.1@)),
            spec_for_of(pv, section@) == spec_for_of(pv.take(k as int), section@),
        decreases k,
    {
        assert(pv.take(k as int).drop_last() =~= pv.take(k - 1));
        assert(pv.take(k as int).last() == pv[k - 1]);
        if str_eq(pairs[k - 1].0.as_str(), section) {
            return Some(&pairs[k - 1].1);
        }
        k = k - 1;
    }
    None
}

} // verus!
