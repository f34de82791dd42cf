//! Certificate authorities of one's own.
use rustls::pki_types::pem::PemObject;
use vstd::prelude::*;
use vstd::string::StringExecFns;

verus! {

/// The certificates that a PEM file holds, in order, and what is wrong where one cannot be read.
pub uninterp spec fn pem_certificates(contents: Seq<u8>) -> Seq<Result<Seq<u8>, Seq<char>>>;

/// Why a certificate cannot be an authority, if it cannot.
pub uninterp spec fn anchor_fault(certificate: Seq<u8>) -> Option<Seq<char>>;

/// What was read of certificates.
pub open spec fn read_views(read: Seq<Result<Vec<u8>, String>>) -> Seq<Result<Seq<u8>, Seq<char>>> {
    read.map_values(
        |one: Result<Vec<u8>, String>|
            match one {
                Ok(bytes) => Ok::<Seq<u8>, Seq<char>>(bytes@),
                Err(reason) => Err(reason@),
            },
    )
}

/// `rustls::pki_types::CertificateDer::pem_slice_iter`: the certificates, and what is wrong with
/// those that cannot be read, are a function of the bytes.
#[verifier::external_body]
fn read_pem(contents: &Vec<u8>) -> (read: Vec<Result<Vec<u8>, String>>)
    ensures
        read_views(read@) == pem_certificates(contents@),
{
    rustls::pki_types::CertificateDer::pem_slice_iter(contents)
        .map(|one| one.map(|der| der.to_vec()).map_err(|error| error.to_string()))
        .collect()
}

/// `rustls::RootCertStore::add` on an empty store: whether a certificate is taken, and why it is
/// not, is a function of its bytes.
#[verifier::external_body]
fn check_anchor(certificate: &Vec<u8>) -> (checked: Result<(), String>)
    ensures
        (match checked {
            Ok(()) => None::<Seq<char>>,
            Err(reason) => Some(reason@),
        }) == anchor_fault(certificate@),
{
    let mut roots = rustls::RootCertStore::empty();
    let der = rustls::pki_types::CertificateDer::from(certificate.as_slice());
    roots.add(der).map_err(|error| error.to_string())
}

/// What is wrong with the certificates of a file, if anything is: the first that cannot be read
/// or be an authority.
pub open spec fn authorities_fault(
    certificates: Seq<Result<Seq<u8>, Seq<char>>>,
    path: Seq<char>,
) -> Option<Seq<char>>
    decreases certificates.len(),
{
    if certificates.len() == 0 {
        None
    } else {
        match authorities_fault(certificates.drop_last(), path) {
            Some(fault) => Some(fault),
            None => match certificates.last() {
                Err(reason) => Some("invalid private CA "@ + path + ": "@ + reason),
                Ok(certificate) => match anchor_fault(certificate) {
                    Some(reason) => Some("invalid private CA "@ + path + ": "@ + reason),
                    None => None,
                },
            },
        }
    }
}

/// What is wrong with a file of certificate authorities, if anything is.
pub open spec fn authority_file_fault(contents: Seq<u8>, path: Seq<char>) -> Option<Seq<char>> {
    match authorities_fault(pem_certificates(contents), path) {
        Some(fault) => Some(fault),
        None => if pem_certificates(contents).len() == 0 {
            Some("private CA "@ + path + " contains no certificates"@)
        } else {
            None
        },
    }
}

fn invalid_authority(path: &str, reason: &str) -> (message: String)
    ensures
        message@ == "invalid private CA "@ + path@ + ": "@ + reason@,
{
    "invalid private CA ".to_owned().concat(path).concat(": ").concat(reason)
}

/// The authorities that were read, or what is wrong with them.
pub fn check_authorities(read: Vec<Result<Vec<u8>, String>>, path: &str) -> (authorities: Result<
    Vec<Vec<u8>>,
    String,
>)
    ensures
        match authorities {
            Ok(authorities) => {
                &&& read@.len() > 0
                &&& authorities_fault(read_views(read@), path@) is None
                &&& authorities@.len() == read@.len()
                &&& forall|i: int|
                    0 <= i < read@.len() ==> read@[i] == Ok::<Vec<u8>, String>(
                        #[trigger] authorities@[i],
                    )
            },
            Err(message) => Some(message@) == (match authorities_fault(
                read_views(read@),
                path@,
            ) {
                Some(fault) => Some(fault),
                None => if read@.len() == 0 {
                    Some("private CA "@ + path@ + " contains no certificates"@)
                } else {
                    None
                },
            }),
        },
{
    let ghost all = read@;
    let ghost views = read_views(all);
    let count: usize = read.len();
    let mut rest = read;
    let mut authorities: Vec<Vec<u8>> = Vec::new();
    proof {
        assert(all.skip(0) == all);
        assert(views.take(0) == Seq::<Result<Seq<u8>, Seq<char>>>::empty());
    }
    let mut i: usize = 0;
    while i < count
        invariant
            count == all.len(),
            views == read_views(all),
            i <= count,
            all == read@,
            rest@ == all.skip(i as int),
            authorities_fault(views.take(i as int), path@) is None,
            authorities@.len() == i,
            forall|k: int|
                0 <= k < i ==> all[k] == Ok::<Vec<u8>, String>(#[trigger] authorities@[k]),
        decreases count - i,
    {
        let one = rest.remove(0);
        proof {
            assert(one == all[i as int]);
            assert(all.skip(i as int).remove(0) == all.skip(i + 1));
            assert(views.take(i + 1).drop_last() == views.take(i as int));
            assert(views.take(i + 1).last() == views[i as int]);
        }
        match one {
            Err(reason) => {
                proof {
                    lemma_fault_stays(views, path@, i + 1);
                }
                return Err(invalid_authority(path, &reason));
            },
            Ok(certificate) => {
                match check_anchor(&certificate) {
                    Err(reason) => {
                        proof {
                            lemma_fault_stays(views, path@, i + 1);
                        }
                        return Err(invalid_authority(path, &reason));
                    },
                    Ok(()) => {},
                }
                authorities.push(certificate);
            },
        }
        i += 1;
    }
    proof {
        assert(views.take(count as int) == views);
    }
    if count == 0 {
        return Err(
            "private CA ".to_owned().concat(path).concat(" contains no certificates"),
        );
    }
    Ok(authorities)
}

proof fn lemma_fault_stays(
    certificates: Seq<Result<Seq<u8>, Seq<char>>>,
    path: Seq<char>,
    n: int,
)
    requires
        0 <= n <= certificates.len(),
        authorities_fault(certificates.take(n), path) is Some,
    ensures
        authorities_fault(certificates, path) == authorities_fault(certificates.take(n), path),
    decreases certificates.len() - n,
{
    if n == certificates.len() {
        assert(certificates.take(n) == certificates);
    } else {
        assert(certificates.take(n + 1).drop_last() == certificates.take(n));
        lemma_fault_stays(certificates, path, n + 1);
    }
}

/// The certificate authorities of a file. All of them must be sound, and there must be one.
pub fn private_authorities(contents: &Vec<u8>, path: &str) -> (authorities: Result<
    Vec<Vec<u8>>,
    String,
>)
    ensures
        match authorities {
            Ok(authorities) => {
                &&& authority_file_fault(contents@, path@) is None
                &&& authorities@.len() == pem_certificates(contents@).len()
                &&& forall|i: int|
                    0 <= i < authorities@.len() ==> pem_certificates(contents@)[i] == Ok::<
                        Seq<u8>,
                        Seq<char>,
                    >((#[trigger] authorities@[i])@)
            },
            Err(message) => authority_file_fault(contents@, path@) == Some(message@),
        },
{
    let read = read_pem(contents);
    let ghost all = read@;
    let authorities = check_authorities(read, path);
    proof {
        assert(read_views(all).len() == all.len());
        if authorities is Ok {
            assert forall|i: int| 0 <= i < authorities->Ok_0@.len() implies pem_certificates(
                contents@,
            )[i] == Ok::<Seq<u8>, Seq<char>>((#[trigger] authorities->Ok_0@[i])@) by {
                assert(read_views(all)[i] == Ok::<Seq<u8>, Seq<char>>(authorities->Ok_0@[i]@));
            }
        }
    }
    authorities
}

} // verus!
