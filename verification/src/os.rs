//! The operating-system distribution that the catalogue and the script
//! header depend on, and the parser that reads it out of an os-release file.

use vstd::prelude::*;

verus! {

/// The detected Linux distribution.  Detection failure degrades to
/// `Unknown`; it never aborts the session.
#[derive(Debug, PartialEq, Eq, Structural, Clone, Copy)]
pub enum OsDistribution {
    Rhel,
    Centos,
    Unknown,
}

/// The display name of a distribution, as it appears in the generated
/// script's header comment.
pub open spec fn spec_os_name(os: OsDistribution) -> Seq<char> {
    match os {
        OsDistribution::Rhel => "Rhel"@,
        OsDistribution::Centos => "Centos"@,
        OsDistribution::Unknown => "Unknown"@,
    }
}

/// Returns the display name used in the script header.
pub fn os_name(os: OsDistribution) -> (r: &'static str)
    ensures
        r@ == spec_os_name(os),
{
    match os {
        OsDistribution::Rhel => "Rhel",
        OsDistribution::Centos => "Centos",
        OsDistribution::Unknown => "Unknown",
    }
}

/// The position of the first newline at or after `from`, or the length
/// when there is none.
pub open spec fn first_nl(s: Seq<u8>, from: int) -> int
    decreases s.len() - from,
        when 0 <= from <= s.len()
{
    if from >= s.len() {
        s.len() as int
    } else if s[from] == '\n' as u8 {
        from
    } else {
        first_nl(s, from + 1)
    }
}

/// A line with its trailing carriage return removed, as `str::lines` does
/// for `\r\n` endings.
pub open spec fn strip_cr(l: Seq<u8>) -> Seq<u8> {
    if l.len() > 0 && l.last() == '\r' as u8 {
        l.drop_last()
    } else {
        l
    }
}

/// The lines of `s` from position `from` on, split at newlines, with no
/// trailing empty line for a final newline.  A carriage return is part of
/// the terminator and removed with it; a final line without a newline
/// keeps its bytes, carriage return included.
pub open spec fn spec_lines_from(s: Seq<u8>, from: int) -> Seq<Seq<u8>>
    decreases s.len() - from,
        when 0 <= from <= s.len()
{
    if from >= s.len() {
        Seq::empty()
    } else {
        proof {
            lemma_first_nl_bounds(s, from);
        }
        let e = first_nl(s, from);
        if e >= s.len() {
            seq![s.subrange(from, e)]
        } else {
            seq![strip_cr(s.subrange(from, e))] + spec_lines_from(s, e + 1)
        }
    }
}

/// The line starts with `ID=`.
pub open spec fn is_id_line(l: Seq<u8>) -> bool {
    l.len() >= 3 && l[0] == 'I' as u8 && l[1] == 'D' as u8 && l[2] == '=' as u8
}

/// The value with all leading and trailing double quotes removed.
pub open spec fn trim_quotes(s: Seq<u8>) -> Seq<u8>
    decreases s.len(),
{
    if s.len() > 0 && s[0] == '"' as u8 {
        trim_quotes(s.drop_first())
    } else if s.len() > 0 && s.last() == '"' as u8 {
        trim_quotes(s.drop_last())
    } else {
        s
    }
}

/// Every leading `ID=` removed, one after the other.
pub open spec fn strip_id_prefix(l: Seq<u8>) -> Seq<u8>
    decreases l.len(),
{
    if l.len() >= 3 && l[0] == 'I' as u8 && l[1] == 'D' as u8 && l[2] == '=' as u8 {
        strip_id_prefix(l.skip(3))
    } else {
        l
    }
}

/// The value of an `ID=` line: every leading `ID=` stripped, the rest
/// unquoted.
pub open spec fn id_value(l: Seq<u8>) -> Seq<u8> {
    trim_quotes(strip_id_prefix(l))
}

pub open spec fn rhel_id() -> Seq<u8> {
    seq!['r' as u8, 'h' as u8, 'e' as u8, 'l' as u8]
}

pub open spec fn centos_id() -> Seq<u8> {
    seq!['c' as u8, 'e' as u8, 'n' as u8, 't' as u8, 'o' as u8, 's' as u8]
}

/// The distribution a given `ID=` value names.
pub open spec fn distro_of_id(v: Seq<u8>) -> OsDistribution {
    if v == rhel_id() {
        OsDistribution::Rhel
    } else if v == centos_id() {
        OsDistribution::Centos
    } else {
        OsDistribution::Unknown
    }
}

/// The first `ID=` line decides; without one the distribution is unknown.
pub open spec fn spec_distro_of_lines(ls: Seq<Seq<u8>>) -> OsDistribution
    decreases ls.len(),
{
    if ls.len() == 0 {
        OsDistribution::Unknown
    } else if is_id_line(ls[0]) {
        distro_of_id(id_value(ls[0]))
    } else {
        spec_distro_of_lines(ls.drop_first())
    }
}

/// What an os-release document names as the running distribution.
pub open spec fn spec_os_release(s: Seq<u8>) -> OsDistribution {
    spec_distro_of_lines(spec_lines_from(s, 0))
}

pub proof fn lemma_first_nl_bounds(s: Seq<u8>, from: int)
    requires
        0 <= from <= s.len(),
    ensures
        from <= first_nl(s, from) <= s.len(),
        forall|j: int| from <= j < first_nl(s, from) ==> s[j] != '\n' as u8,
        first_nl(s, from) == s.len() || s[first_nl(s, from)] == '\n' as u8,
    decreases s.len() - from,
{
    if from >= s.len() {
    } else if s[from] == '\n' as u8 {
    } else {
        lemma_first_nl_bounds(s, from + 1);
    }
}

proof fn lemma_first_nl_is(s: Seq<u8>, from: int, e: int)
    requires
        0 <= from <= e <= s.len(),
        forall|j: int| from <= j < e ==> s[j] != '\n' as u8,
        e == s.len() || s[e] == '\n' as u8,
    ensures
        first_nl(s, from) == e,
    decreases e - from,
{
    if from == e {
    } else {
        lemma_first_nl_is(s, from + 1, e);
    }
}

/// Reads the distribution out of the content of an os-release file: the
/// first `ID=` line, its value unquoted, decides; `rhel` and `centos` are
/// recognized, anything else (or no `ID=` line at all) is unknown.
#[verifier::rlimit(100)]
pub fn parse_os_release(content: &[u8]) -> (os: OsDistribution)
    ensures
        os == spec_os_release(content@),
{
    let ghost s = content@;
    let mut from: usize = 0;
    let mut result = OsDistribution::Unknown;
    let mut found = false;
    while !found && from < content.len()
        invariant
            s == content@,
            from <= s.len(),
            found ==> result == spec_os_release(s),
            !found ==> result == OsDistribution::Unknown,
            !found ==> spec_os_release(s) == spec_distro_of_lines(spec_lines_from(s, from as int)),
        decreases s.len() - from, (if found { 0int } else { 1int }),
    {
        let mut e: usize = from;
        while e < content.len() && content[e] != '\n' as u8
            invariant
                s == content@,
                from <= e <= s.len(),
                forall|j: int| from <= j < e ==> s[j] != '\n' as u8,
            decreases s.len() - e,
        {
            e = e + 1;
        }
        proof {
            lemma_first_nl_is(s, from as int, e as int);
        }
        let mut lend = e;
        if e < content.len() && lend > from && content[lend - 1] == '\r' as u8 {
            lend = lend - 1;
        }
        let ghost line = if (e as int) < s.len() {
            strip_cr(s.subrange(from as int, e as int))
        } else {
            s.subrange(from as int, e as int)
        };
        proof {
            assert(line =~= s.subrange(from as int, lend as int));
        }
        if lend - from >= 3 && content[from] == 'I' as u8 && content[from + 1] == 'D' as u8
            && content[from + 2] == '=' as u8 {
            let mut vs = from;
            let mut ve = lend;
            let ghost val0 = strip_id_prefix(line);
            while ve - vs >= 3 && content[vs] == 'I' as u8 && content[vs + 1] == 'D' as u8
                && content[vs + 2] == '=' as u8
                invariant
                    s == content@,
                    from <= vs <= ve <= s.len(),
                    ve == lend,
                    val0 == strip_id_prefix(s.subrange(vs as int, ve as int)),
                decreases ve - vs,
            {
                proof {
                    let cur = s.subrange(vs as int, ve as int);
                    assert(cur[0] == 'I' as u8 && cur[1] == 'D' as u8 && cur[2] == '=' as u8);
                    assert(cur.skip(3) =~= s.subrange(vs as int + 3, ve as int));
                }
                vs = vs + 3;
            }
            proof {
                let cur = s.subrange(vs as int, ve as int);
                if cur.len() >= 3 {
                    assert(cur[0] == s[vs as int] && cur[1] == s[vs as int + 1] && cur[2] == s[
                        vs as int + 2]);
                }
                assert(strip_id_prefix(cur) == cur);
                assert(trim_quotes(val0) == trim_quotes(cur));
            }
            while vs < ve && content[vs] == '"' as u8
                invariant
                    s == content@,
                    from <= vs <= ve <= s.len(),
                    trim_quotes(val0) == trim_quotes(s.subrange(vs as int, ve as int)),
                decreases ve - vs,
            {
                proof {
                    let cur = s.subrange(vs as int, ve as int);
                    assert(cur[0] == '"' as u8);
                    assert(cur.drop_first() =~= s.subrange(vs as int + 1, ve as int));
                }
                vs = vs + 1;
            }
            while ve > vs && content[ve - 1] == '"' as u8
                invariant
                    s == content@,
                    from <= vs <= ve <= s.len(),
                    trim_quotes(val0) == trim_quotes(s.subrange(vs as int, ve as int)),
                    vs == ve || s[vs as int] != '"' as u8,
                decreases ve - vs,
            {
                proof {
                    let cur = s.subrange(vs as int, ve as int);
                    assert(cur.last() == s[ve as int - 1]);
                    assert(cur.drop_last() =~= s.subrange(vs as int, ve as int - 1));
                }
                ve = ve - 1;
            }
            let ghost val = s.subrange(vs as int, ve as int);
            proof {
                if val.len() > 0 {
                    assert(val[0] == s[vs as int]);
                    assert(val.last() == s[ve as int - 1]);
                }
                assert(trim_quotes(val) == val);
                assert(trim_quotes(val0) == val);
            }
            let n = ve - vs;
            let is_rhel = n == 4 && content[vs] == 'r' as u8 && content[vs + 1] == 'h' as u8
                && content[vs + 2] == 'e' as u8 && content[vs + 3] == 'l' as u8;
            let is_centos = n == 6 && content[vs] == 'c' as u8 && content[vs + 1] == 'e' as u8
                && content[vs + 2] == 'n' as u8 && content[vs + 3] == 't' as u8 && content[vs + 4]
                == 'o' as u8 && content[vs + 5] == 's' as u8;
            result = if is_rhel {
                OsDistribution::Rhel
            } else if is_centos {
                OsDistribution::Centos
            } else {
                OsDistribution::Unknown
            };
            proof {
                if val == rhel_id() {
                    assert(val.len() == 4);
                    assert(val[0] == 'r' as u8 && val[1] == 'h' as u8 && val[2] == 'e' as u8
                        && val[3] == 'l' as u8);
                    assert(is_rhel);
                }
                if val == centos_id() {
                    assert(val.len() == 6);
                    assert(val[0] == 'c' as u8 && val[1] == 'e' as u8 && val[2] == 'n' as u8
                        && val[3] == 't' as u8 && val[4] == 'o' as u8 && val[5] == 's' as u8);
                    assert(is_centos);
                }
                if is_rhel {
                    assert(val =~= rhel_id());
                }
                if is_centos {
                    assert(val =~= centos_id());
                }
                assert(is_id_line(line));
                assert(id_value(line) == val);
                assert(result == distro_of_id(id_value(line)));
                let ls = spec_lines_from(s, from as int);
                assert(ls[0] == line);
                assert(spec_distro_of_lines(ls) == distro_of_id(id_value(line)));
                assert(result == spec_os_release(s));
            }
            found = true;
        } else {
            proof {
                assert(!is_id_line(line));
                let ls = spec_lines_from(s, from as int);
                assert(ls[0] == line);
                if (e as int) < s.len() {
                    assert(ls.drop_first() =~= spec_lines_from(s, e as int + 1));
                } else {
                    assert(ls.drop_first() =~= Seq::<Seq<u8>>::empty());
                    assert(spec_distro_of_lines(ls.drop_first()) == OsDistribution::Unknown);
                }
                assert(spec_distro_of_lines(ls) == spec_distro_of_lines(ls.drop_first()));
            }
            if e < content.len() {
                from = e + 1;
            } else {
                from = content.len();
                proof {
                    assert(spec_lines_from(s, from as int) =~= Seq::<Seq<u8>>::empty());
                }
            }
        }
    }
    proof {
        if !found {
            assert(from >= s.len());
            assert(spec_lines_from(s, from as int) =~= Seq::<Seq<u8>>::empty());
            assert(result == spec_os_release(s));
        }
    }
    result
}

} // verus!
