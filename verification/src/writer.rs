//! Writing the configuration: what stands between the new text and the disk.
use vstd::prelude::*;
use crate::text::{joined, texts};
use crate::write_lock::{known_spelling, ConfigTreeIdentity, ConfigWriteLock, LockError};

verus! {

/// Texts with `; ` between them.
pub open spec fn listed(parts: Seq<Seq<char>>) -> Seq<char>
    decreases parts.len(),
{
    if parts.len() == 0 {
        Seq::empty()
    } else if parts.len() == 1 {
        parts[0]
    } else {
        listed(parts.drop_last()) + "; "@ + parts.last()
    }
}

/// The text of a refusal over what a validation found.
pub open spec fn refusal_text(errors: Seq<Seq<char>>) -> Seq<char> {
    "validation failed: "@ + listed(errors)
}

/// What comes of validating a staged configuration: it is written where the
/// validation found nothing, and refused with all that it found otherwise.
pub fn validation_outcome(found: &Result<(), Vec<String>>) -> (r: Result<(), String>)
    ensures
        found is Ok <==> r is Ok,
        r matches Err(text) ==> text@ == refusal_text(texts(found->Err_0@)),
{
    let errors = match found {
        Ok(_) => {
            return Ok(());
        },
        Err(errors) => errors,
    };
    let ghost all = texts(errors@);
    let mut out = "".to_owned();
    let mut i: usize = 0;
    proof {
        reveal_strlit("");
        assert(all.take(0) =~= Seq::<Seq<char>>::empty());
        assert(out@ =~= listed(all.take(0)));
    }
    while i < errors.len()
        invariant
            i <= errors.len(),
            all == texts(errors@),
            out@ == listed(all.take(i as int)),
        decreases errors.len() - i,
    {
        proof {
            assert(all.take(i + 1).drop_last() =~= all.take(i as int));
            assert(all.take(i + 1).last() == errors@[i as int]@);
        }
        if i == 0 {
            out = errors[i].as_str().to_owned();
            proof {
                assert(all.take(1)[0] == errors@[0]@);
            }
        } else {
            let so_far = joined(&out, "; ");
            out = joined(&so_far, errors[i].as_str());
        }
        i += 1;
    }
    proof {
        assert(all.take(all.len() as int) =~= all);
    }
    Err(joined("validation failed: ", &out))
}

/// Why a configuration is not written.
#[derive(Debug)]
pub enum WriteRefusal {
    /// The lock is not the lock of the file.
    Lock(LockError),
    /// The configuration does not validate.
    Invalid(String),
}

/// Whether the configuration at `master` may be replaced under a lock. The
/// lock has to be that of the file, and the staged text has to validate; only
/// then is anything on the disk touched. `absolute` is the path made absolute,
/// `resolved` is the tree that it leads to, and `found` is what validating the
/// staged text found.
pub fn write_config_v1_locked(
    guard: &ConfigWriteLock,
    absolute: &Vec<u8>,
    master: &Vec<u8>,
    resolved: &ConfigTreeIdentity,
    found: &Result<(), Vec<String>>,
) -> (r: Result<(), WriteRefusal>)
    ensures
        ({
            let own = known_spelling(guard@, absolute@, master@) || resolved@ == guard@.identity;
            match r {
                Ok(_) => own && *found is Ok,
                Err(WriteRefusal::Lock(e)) => !own && e == LockError::ForeignGuard,
                Err(WriteRefusal::Invalid(text)) => own && *found is Err && text@ == refusal_text(
                    texts((*found)->Err_0@),
                ),
            }
        }),
{
    match guard.verify_master(absolute, master, resolved) {
        Ok(_) => {},
        Err(e) => {
            return Err(WriteRefusal::Lock(e));
        },
    }
    match validation_outcome(found) {
        Ok(_) => Ok(()),
        Err(text) => Err(WriteRefusal::Invalid(text)),
    }
}

} // verus!
