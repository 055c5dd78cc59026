//! The hardware fingerprint: an ordered list of raw identifier strings. The
//! platform shims that query the host hand in the identifiers each source
//! produced, in source order; a failed query contributes nothing, and an
//! unsupported host yields a single sentinel entry.
use vstd::prelude::*;
use vstd::string::StringExecFns;

verus! {

/// What the host-specific probes produced: the identifiers from the board,
/// CPU and primary-disk sources on a supported host (a source may yield
/// none, one or several), or nothing on an unsupported one.
pub enum HostProbe {
    /// Board, CPU and disk identifiers, per source, in source order.
    Supported { board: Vec<String>, cpu: Vec<String>, disk: Vec<String> },
    /// A host platform without probes.
    Unsupported,
}

/// The ordered fingerprint a probe result denotes: board, CPU and disk
/// identifiers in that order, or the sentinel entry on an unsupported host.
pub open spec fn fingerprint_of(probe: HostProbe) -> Seq<Seq<char>> {
    match probe {
        HostProbe::Supported { board, cpu, disk } => board.deep_view() + cpu.deep_view()
            + disk.deep_view(),
        HostProbe::Unsupported => seq!["unsupported-platform"@],
    }
}

fn append_all(dst: &mut Vec<String>, src: &Vec<String>)
    ensures
        final(dst).deep_view() == old(dst).deep_view() + src.deep_view(),
{
    let mut i: usize = 0;
    while i < src.len()
        invariant
            i <= src.len(),
            dst@ == old(dst)@ + src@.take(i as int),
        decreases src.len() - i,
    {
        dst.push(src[i].clone());
        proof {
            assert(dst@ =~= old(dst)@ + src@.take(i + 1int));
        }
        i = i + 1;
    }
    proof {
        assert(src@.take(src@.len() as int) =~= src@);
        assert(dst.deep_view() =~= old(dst).deep_view() + src.deep_view());
    }
}

/// Assembles the ordered fingerprint list from the probe results.
pub fn get_hardware_info(probe: &HostProbe) -> (r: Vec<String>)
    ensures
        r.deep_view() == fingerprint_of(*probe),
{
    let mut infos: Vec<String> = Vec::new();
    match probe {
        HostProbe::Supported { board, cpu, disk } => {
            append_all(&mut infos, board);
            append_all(&mut infos, cpu);
            append_all(&mut infos, disk);
            proof {
                assert(infos.deep_view() =~= fingerprint_of(*probe));
            }
        },
        HostProbe::Unsupported => {
            infos.push(String::from_str("unsupported-platform"));
            proof {
                assert(infos.deep_view() =~= fingerprint_of(*probe));
            }
        },
    }
    infos
}

} // verus!
