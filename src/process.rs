use vstd::prelude::*;

use crate::desc::{parse_desc, parse_spec, DescError, DescKey, PackageDesc};
use crate::group::PackageEntry;
use crate::units::{collect_unit_paths, lists_set, unit_paths, UnitPaths};

verus! {

/// One package ready to be sent: its metadata with the `repo` field added,
/// and the unit files its listing names.
pub struct Prepared {
    pub desc: PackageDesc,
    pub units: UnitPaths,
}

/// Parses a package record's metadata, adds the `repo` field, and collects
/// the unit files of its file listing. Fails exactly when the metadata does.
pub fn prepare_package(entry: &PackageEntry, repo: &str) -> (r: Result<Prepared, DescError>)
    ensures
        r is Ok <==> parse_spec(entry.desc@) is Ok,
        r is Ok ==> {
            let p = r->Ok_0;
            &&& p.desc.wf()
            &&& p.desc@ == parse_spec(entry.desc@)->Ok_0.insert(DescKey::Repo, seq![repo@])
            &&& lists_set(p.units.services@, unit_paths(entry.files@, ".service"@))
            &&& lists_set(p.units.timers@, unit_paths(entry.files@, ".timer"@))
        },
        r is Err ==> parse_spec(entry.desc@) == Err::<Map<DescKey, Seq<Seq<char>>>, Seq<char>>(
            r->Err_0.tag(),
        ),
{
    let mut desc = match parse_desc(entry.desc.as_str()) {
        Ok(d) => d,
        Err(e) => {
            return Err(e);
        },
    };
    desc.put_single(DescKey::Repo, repo.to_owned());
    let units = collect_unit_paths(entry.files.as_str());
    Ok(Prepared { desc, units })
}

} // verus!
