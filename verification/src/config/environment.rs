//! Whether a configuration fits the machine.
use super::{ConfigError, ResolvedConfig};
use crate::text::same_text;
use vstd::prelude::*;
use vstd::string::StringExecFns;

verus! {

pub open spec fn has_name(names: Seq<String>, name: Seq<char>) -> bool {
    exists|i: int| 0 <= i < names.len() && (#[trigger] names[i])@ == name
}

/// The first of the configured interfaces that the machine does not have.
pub open spec fn first_absent(configured: Seq<String>, available: Seq<String>) -> Option<Seq<char>>
    decreases configured.len(),
{
    if configured.len() == 0 {
        None
    } else if !has_name(available, configured[0]@) {
        Some(configured[0]@)
    } else {
        first_absent(configured.drop_first(), available)
    }
}

fn is_available(available: &Vec<String>, name: &str) -> (found: bool)
    ensures
        found == has_name(available@, name@),
{
    let mut i: usize = 0;
    while i < available.len()
        invariant
            i <= available@.len(),
            forall|k: int| 0 <= k < i ==> (#[trigger] available@[k])@ != name@,
        decreases available@.len() - i,
    {
        if same_text(&available[i], name) {
            return true;
        }
        i += 1;
    }
    false
}

/// Refuses interfaces that the machine does not have.
pub fn check_interfaces(config: &ResolvedConfig, available: &Vec<String>) -> (checked: Result<
    (),
    ConfigError,
>)
    ensures
        match (checked, first_absent(config.interfaces@, available@)) {
            (Ok(()), absent) => absent is None,
            (Err(error), absent) => absent is Some && error.message@
                == "network interface does not exist: "@ + absent->0,
        },
{
    let mut i: usize = 0;
    proof {
        assert(config.interfaces@.skip(0) == config.interfaces@);
    }
    while i < config.interfaces.len()
        invariant
            i <= config.interfaces@.len(),
            first_absent(config.interfaces@, available@) == first_absent(
                config.interfaces@.skip(i as int),
                available@,
            ),
        decreases config.interfaces@.len() - i,
    {
        proof {
            assert(config.interfaces@.skip(i as int)[0] == config.interfaces@[i as int]);
            assert(config.interfaces@.skip(i as int).drop_first() == config.interfaces@.skip(
                i + 1,
            ));
        }
        if !is_available(available, &config.interfaces[i]) {
            return Err(
                ConfigError {
                    message: "network interface does not exist: ".to_owned().concat(
                        &config.interfaces[i],
                    ),
                },
            );
        }
        i += 1;
    }
    Ok(())
}

/// What the machine says of a path.
pub struct PathFacts {
    pub is_directory: bool,
    pub is_file: bool,
    pub read_only: bool,
}

/// What is wrong with a directory that is to be written to.
pub open spec fn directory_fault(
    name: Seq<char>,
    path: Seq<char>,
    facts: Result<PathFacts, String>,
) -> Option<Seq<char>> {
    match facts {
        Err(cause) => Some(name + " directory "@ + path + " is not accessible: "@ + cause@),
        Ok(facts) => if !facts.is_directory {
            Some(name + " path is not a directory: "@ + path)
        } else if facts.read_only {
            Some(name + " directory is read-only: "@ + path)
        } else {
            None
        },
    }
}

/// Checks a directory that is to be written to.
pub fn validate_directory(name: &str, path: &str, facts: &Result<PathFacts, String>) -> (checked:
    Result<(), ConfigError>)
    ensures
        match checked {
            Ok(()) => directory_fault(name@, path@, *facts) is None,
            Err(error) => directory_fault(name@, path@, *facts) == Some(error.message@),
        },
{
    match facts {
        Err(cause) => Err(
            ConfigError {
                message: name.to_owned().concat(" directory ").concat(path).concat(
                    " is not accessible: ",
                ).concat(cause),
            },
        ),
        Ok(facts) => {
            if !facts.is_directory {
                Err(
                    ConfigError {
                        message: name.to_owned().concat(" path is not a directory: ").concat(path),
                    },
                )
            } else if facts.read_only {
                Err(
                    ConfigError {
                        message: name.to_owned().concat(" directory is read-only: ").concat(path),
                    },
                )
            } else {
                Ok(())
            }
        },
    }
}

/// Checks a certificate file.
pub fn validate_certificate(path: &str, facts: &Result<PathFacts, String>) -> (checked: Result<
    (),
    ConfigError,
>)
    ensures
        match (checked, *facts) {
            (Ok(()), facts) => facts is Ok && facts->Ok_0.is_file,
            (Err(error), Err(cause)) => error.message@ == "cannot read NDT CA certificate "@ + path@
                + ": "@ + cause@,
            (Err(error), Ok(facts)) => !facts.is_file && error.message@
                == "NDT CA certificate is not a file: "@ + path@,
        },
{
    match facts {
        Err(cause) => Err(
            ConfigError {
                message: "cannot read NDT CA certificate ".to_owned().concat(path).concat(
                    ": ",
                ).concat(cause),
            },
        ),
        Ok(facts) => {
            if facts.is_file {
                Ok(())
            } else {
                Err(
                    ConfigError {
                        message: "NDT CA certificate is not a file: ".to_owned().concat(path),
                    },
                )
            }
        },
    }
}

} // verus!
