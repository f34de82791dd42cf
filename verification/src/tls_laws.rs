//! Which certificates are taken as authorities.
use crate::tls::{anchor_fault, authorities_fault, check_authorities, read_views};
use vstd::prelude::*;

verus! {

/// The certificate was read and can be an authority.
pub open spec fn can_vouch(one: Result<Vec<u8>, String>) -> bool {
    one is Ok && anchor_fault(one->Ok_0@) is None
}

proof fn lemma_all_vouch(read: Seq<Result<Vec<u8>, String>>, path: Seq<char>)
    ensures
        authorities_fault(read_views(read), path) is None <==> forall|i: int|
            0 <= i < read.len() ==> can_vouch(#[trigger] read[i]),
        authorities_fault(read_views(read), path) is Some ==> exists|i: int|
            {
                &&& 0 <= i < read.len()
                &&& !can_vouch(#[trigger] read[i])
                &&& forall|k: int| 0 <= k < i ==> can_vouch(#[trigger] read[k])
                &&& authorities_fault(read_views(read), path) == Some(
                    "invalid private CA "@ + path + ": "@ + (if read[i] is Err {
                        read[i]->Err_0@
                    } else {
                        anchor_fault(read[i]->Ok_0@)->0
                    }),
                )
            },
    decreases read.len(),
{
    if read.len() > 0 {
        let fewer = read.drop_last();
        let last = read.len() - 1;
        lemma_all_vouch(fewer, path);
        assert(read_views(read).drop_last() =~= read_views(fewer));
        assert(forall|i: int| 0 <= i < last ==> #[trigger] fewer[i] == read[i]);
        if authorities_fault(read_views(fewer), path) is None {
            assert forall|k: int| 0 <= k < last implies can_vouch(#[trigger] read[k]) by {
                assert(can_vouch(fewer[k]));
            }
            assert(authorities_fault(read_views(read), path) is Some ==> !can_vouch(read[last]));
        } else {
            let i = choose|i: int|
                {
                    &&& 0 <= i < fewer.len()
                    &&& !can_vouch(#[trigger] fewer[i])
                    &&& forall|k: int| 0 <= k < i ==> can_vouch(#[trigger] fewer[k])
                    &&& authorities_fault(read_views(fewer), path) == Some(
                        "invalid private CA "@ + path + ": "@ + (if fewer[i] is Err {
                            fewer[i]->Err_0@
                        } else {
                            anchor_fault(fewer[i]->Ok_0@)->0
                        }),
                    )
                };
            assert(!can_vouch(read[i]));
            assert forall|k: int| 0 <= k < i implies can_vouch(#[trigger] read[k]) by {
                assert(can_vouch(fewer[k]));
            }
        }
    }
}

/// A file of authorities is taken if it holds one and all that it holds can be read and can vouch.
/// All of them are taken then, in order. Otherwise the first that fails is told of, or that there
/// is none.
pub proof fn law_every_authority_can_vouch(
    read: Vec<Result<Vec<u8>, String>>,
    path: &str,
    authorities: Result<Vec<Vec<u8>>, String>,
)
    requires
        call_ensures(check_authorities, (read, path), authorities),
    ensures
        authorities is Ok <==> read@.len() > 0 && forall|i: int|
            0 <= i < read@.len() ==> can_vouch(#[trigger] read@[i]),
        authorities is Ok ==> authorities->Ok_0@.len() == read@.len() && forall|i: int|
            0 <= i < read@.len() ==> (#[trigger] read@[i])->Ok_0 == authorities->Ok_0@[i],
        read@.len() == 0 ==> authorities is Err && authorities->Err_0@ == "private CA "@ + path@
            + " contains no certificates"@,
        authorities is Err && read@.len() > 0 ==> exists|i: int|
            {
                &&& 0 <= i < read@.len()
                &&& !can_vouch(#[trigger] read@[i])
                &&& forall|k: int| 0 <= k < i ==> can_vouch(#[trigger] read@[k])
                &&& authorities->Err_0@ == "invalid private CA "@ + path@ + ": "@ + (if read@[i]
                    is Err {
                    read@[i]->Err_0@
                } else {
                    anchor_fault(read@[i]->Ok_0@)->0
                })
            },
{
    lemma_all_vouch(read@, path@);
    if authorities is Ok {
        assert forall|i: int| 0 <= i < read@.len() implies (#[trigger] read@[i])->Ok_0
            == authorities->Ok_0@[i] by {
            assert(read@[i] == Ok::<Vec<u8>, String>(authorities->Ok_0@[i]));
        }
    }
}

} // verus!
