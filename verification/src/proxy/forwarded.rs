//! The `x-forwarded-for` chain: each proxy on the way appends the address of
//! the peer it accepted the request from, and keeps what was there.

use vstd::prelude::*;

verus! {

/// The separator between two entries of a header's value: a comma and a space.
pub open spec fn separator() -> Seq<u8> {
    seq![44u8, 32u8]
}

/// A header's value after `value` was appended: `value` alone where the
/// header was absent, otherwise what was there, the separator and `value`.
pub open spec fn extended(existing: Option<Seq<u8>>, value: Seq<u8>) -> Seq<u8> {
    match existing {
        Some(chain) => chain + separator() + value,
        None => value,
    }
}

/// The value of a header after `value` was appended to it. `existing` is the
/// header's value so far, `None` where the request does not carry it.
pub fn extend_header_value(existing: Option<&[u8]>, value: &[u8]) -> (r: Vec<u8>)
    ensures
        r@ == extended(
            match existing {
                Some(chain) => Some(chain@),
                None => None,
            },
            value@,
        ),
{
    let mut out: Vec<u8> = Vec::new();
    match existing {
        Some(chain) => {
            let mut i: usize = 0;
            while i < chain.len()
                invariant
                    i <= chain@.len(),
                    out@ == chain@.take(i as int),
                decreases chain@.len() - i,
            {
                out.push(chain[i]);
                proof {
                    assert(chain@.take(i as int).push(chain@[i as int]) =~= chain@.take(i + 1));
                }
                i += 1;
            }
            out.push(44u8);
            out.push(32u8);
            proof {
                assert(chain@.take(i as int) =~= chain@);
                assert(out@ =~= chain@ + separator());
            }
        },
        None => {},
    }
    let ghost head = out@;
    let mut j: usize = 0;
    while j < value.len()
        invariant
            j <= value@.len(),
            out@ == head + value@.take(j as int),
        decreases value@.len() - j,
    {
        out.push(value[j]);
        proof {
            assert(head + value@.take(j as int + 1) =~= (head + value@.take(j as int)).push(
                value@[j as int],
            ));
        }
        j += 1;
    }
    proof {
        assert(value@.take(j as int) =~= value@);
        assert(head + value@.take(0) =~= head);
    }
    out
}

/// Appending keeps the chain: what was there stays in front, and the new
/// address comes last.
pub proof fn lemma_extension_keeps_chain(chain: Seq<u8>, value: Seq<u8>)
    ensures
        extended(Some(chain), value).len() == chain.len() + 2 + value.len(),
        extended(Some(chain), value).take(chain.len() as int) == chain,
        extended(Some(chain), value).skip(chain.len() as int + 2) == value,
{
    let whole = extended(Some(chain), value);
    assert(whole.take(chain.len() as int) =~= chain);
    assert(whole.skip(chain.len() as int + 2) =~= value);
}

} // verus!
