//! Deterministic script synthesis: a pure function of the selection
//! snapshot, the detected distribution and the reboot flag.

use vstd::prelude::*;
use vstd::string::StringExecFns;

use crate::menu::{selected_payloads, MenuTree, NodeView};
use crate::os::{os_name, spec_os_name, OsDistribution};

verus! {

/// The fixed header: shebang, a comment naming the detected OS, a usage
/// comment, and a blank line.
pub open spec fn spec_header(os: OsDistribution) -> Seq<char> {
    "#!/bin/bash\n"@ + "# Commands generated for "@ + spec_os_name(os)
        + " by RHEL/CentOS TUI Manager\n"@
        + "# Save this script and run it with sudo: sudo bash ./script.sh\n\n"@
}

/// Each payload followed by a newline, in order, with no reordering or
/// deduplication.
pub open spec fn joined_payloads(ps: Seq<Seq<char>>) -> Seq<char>
    decreases ps.len(),
{
    if ps.len() == 0 {
        Seq::empty()
    } else {
        ps[0] + "\n"@ + joined_payloads(ps.drop_first())
    }
}

/// The script body: the joined payloads, or the fixed marker when nothing
/// is selected.
pub open spec fn spec_body(ps: Seq<Seq<char>>) -> Seq<char> {
    if ps.len() == 0 {
        "\n# No options selected.\n"@
    } else {
        joined_payloads(ps)
    }
}

/// The completion message and reboot command, present exactly when the
/// reboot flag is set.
pub open spec fn spec_reboot_suffix(reboot: bool) -> Seq<char> {
    if reboot {
        "\necho 'Installation complete. Rebooting now...'\n"@ + "sudo reboot\n"@
    } else {
        Seq::empty()
    }
}

/// The whole script as a function of the selection snapshot alone.
pub open spec fn spec_script(ns: Seq<NodeView>, root: int, os: OsDistribution, reboot: bool) -> Seq<
    char,
> {
    spec_header(os) + spec_body(selected_payloads(ns, root)) + spec_reboot_suffix(reboot)
}

/// Walks the tree's selection state and produces the ordered shell script:
/// header, one line per selected leaf payload in catalogue pre-order (or
/// the fixed marker when none is selected), and the reboot tail when asked
/// for.
pub fn synthesize(tree: &MenuTree, os: OsDistribution, reboot: bool) -> (r: String)
    requires
        tree.wf(),
    ensures
        r@ == spec_script(tree@, tree.root as int, os, reboot),
{
    let mut text = String::new();
    text.append("#!/bin/bash\n");
    text.append("# Commands generated for ");
    text.append(os_name(os));
    text.append(" by RHEL/CentOS TUI Manager\n");
    text.append("# Save this script and run it with sudo: sudo bash ./script.sh\n\n");
    proof {
        assert(text@ =~= spec_header(os));
    }

    let payloads = tree.visit_selected_leaves();
    let ghost ps = payloads.deep_view();
    if payloads.len() == 0 {
        text.append("\n# No options selected.\n");
    } else {
        let ghost header = text@;
        proof {
            assert(ps.skip(0) =~= ps);
        }
        let mut k: usize = 0;
        while k < payloads.len()
            invariant
                ps == payloads.deep_view(),
                k <= ps.len(),
                text@ + joined_payloads(ps.skip(k as int)) =~= header + joined_payloads(ps),
            decreases ps.len() - k,
        {
            proof {
                assert(ps.skip(k as int)[0] == ps[k as int]);
                assert(ps.skip(k as int).drop_first() =~= ps.skip(k as int + 1));
            }
            text.append(payloads[k].as_str());
            text.append("\n");
            k = k + 1;
        }
        proof {
            assert(ps.skip(ps.len() as int) =~= Seq::<Seq<char>>::empty());
            assert(text@ =~= header + joined_payloads(ps));
        }
    }

    if reboot {
        text.append("\necho 'Installation complete. Rebooting now...'\n");
        text.append("sudo reboot\n");
    }
    proof {
        assert(text@ =~= spec_script(tree@, tree.root as int, os, reboot));
    }
    text
}

/// Synthesis is pure: the output is a function of the selection snapshot,
/// the distribution and the reboot flag alone, so identical snapshots give
/// byte-identical scripts.
pub proof fn lemma_synthesis_deterministic(
    ns1: Seq<NodeView>,
    ns2: Seq<NodeView>,
    root: int,
    os: OsDistribution,
    reboot: bool,
)
    requires
        ns1 == ns2,
    ensures
        spec_script(ns1, root, os, reboot) == spec_script(ns2, root, os, reboot),
{
}

/// Selecting and then deselecting a leaf returns the script to its prior
/// value.
pub proof fn lemma_toggle_twice_restores_script(
    ns: Seq<NodeView>,
    i: int,
    root: int,
    os: OsDistribution,
    reboot: bool,
)
    requires
        0 <= i < ns.len(),
    ensures
        spec_script(
            ns.update(i, crate::menu::spec_toggle(ns[i])).update(
                i,
                crate::menu::spec_toggle(ns.update(i, crate::menu::spec_toggle(ns[i]))[i]),
            ),
            root,
            os,
            reboot,
        ) == spec_script(ns, root, os, reboot),
{
    crate::menu::lemma_arena_toggle_involutive(ns, i);
}

/// With no leaf selected the script is the header, the fixed
/// "no options selected" marker, and the reboot tail alone: it holds no
/// payload line.
pub proof fn lemma_no_selection_script(ns: Seq<NodeView>, root: int, os: OsDistribution, reboot: bool)
    requires
        selected_payloads(ns, root).len() == 0,
    ensures
        spec_script(ns, root, os, reboot) == spec_header(os) + "\n# No options selected.\n"@
            + spec_reboot_suffix(reboot),
{
}

} // verus!
