//! Argument Marshalling Bridge: turns the host process's argument vector —
//! arbitrary byte sequences, not necessarily valid text — into
//! null-terminated, byte-identical buffers for a foreign `(argc, argv)` entry
//! point. An argument with an embedded null byte cannot be represented as a
//! null-terminated buffer, so marshalling fails fast before the foreign entry
//! point is ever handed anything.

use vstd::prelude::*;

use crate::text::OwnedByteConversion;

verus! {

/// One process argument: a raw, platform-native byte sequence.
#[derive(Debug, PartialEq, Eq)]
pub struct RawArg {
    pub bytes: Vec<u8>,
}

impl View for RawArg {
    type V = Seq<u8>;

    open spec fn view(&self) -> Seq<u8> {
        self.bytes@
    }
}

impl DeepView for RawArg {
    type V = Seq<u8>;

    open spec fn deep_view(&self) -> Seq<u8> {
        self@
    }
}

impl OwnedByteConversion for RawArg {
    open spec fn byte_view(&self) -> Seq<u8> {
        self.bytes@
    }

    fn into_vec(self) -> (v: Vec<u8>)
    {
        self.bytes
    }

    fn from_vec(vec: Vec<u8>) -> (r: Self)
    {
        RawArg { bytes: vec }
    }
}

/// Marshalling failed: the argument at this index holds an embedded null
/// byte, which no null-terminated buffer can carry.
#[derive(Debug, PartialEq, Eq)]
pub struct EmbeddedNulError {
    pub index: usize,
}

/// Marshal an argument vector into foreign-call-compatible buffers: one
/// buffer per argument, holding the argument's bytes unchanged and then one
/// terminating null. Fails with `EmbeddedNulError` — naming the first
/// offending argument — as soon as any argument itself holds a null byte.
pub fn marshal_args(args: &Vec<RawArg>) -> (r: Result<Vec<Vec<u8>>, EmbeddedNulError>)
    ensures
        r is Ok <==> (forall|i: int| 0 <= i < args@.len() ==> !args@[i]@.contains(0u8)),
        r matches Ok(buffers) ==> (buffers@.len() == args@.len() && forall|i: int|
            0 <= i < args@.len() ==> buffers@[i]@ == args@[i]@ + seq![0u8]),
        r matches Err(e) ==> (e.index < args@.len() && args@[e.index as int]@.contains(0u8)
            && forall|i: int| 0 <= i < e.index ==> !args@[i]@.contains(0u8)),
{
    let mut buffers: Vec<Vec<u8>> = Vec::new();
    let mut i: usize = 0;
    while i < args.len()
        invariant
            i <= args@.len(),
            buffers@.len() == i,
            forall|k: int| 0 <= k < i ==> !args@[k]@.contains(0u8),
            forall|k: int| 0 <= k < i ==> buffers@[k]@ == args@[k]@ + seq![0u8],
        decreases args@.len() - i,
    {
        let arg = &args[i];
        let mut buffer: Vec<u8> = Vec::new();
        let mut j: usize = 0;
        while j < arg.bytes.len()
            invariant
                j <= arg@.len(),
                arg@ == args@[i as int]@,
                i < args@.len(),
                forall|k: int| 0 <= k < i ==> !args@[k]@.contains(0u8),
                buffer@ == arg@.take(j as int),
                forall|k: int| 0 <= k < j ==> arg@[k] != 0u8,
            decreases arg@.len() - j,
        {
            let b = arg.bytes[j];
            if b == 0 {
                assert(args@[i as int]@.contains(0u8)) by {
                    assert(args@[i as int]@[j as int] == 0u8);
                }
                return Err(EmbeddedNulError { index: i });
            }
            buffer.push(b);
            proof {
                assert(buffer@ =~= arg@.take(j as int + 1));
            }
            j = j + 1;
        }
        proof {
            assert(arg@.take(arg@.len() as int) =~= arg@);
            assert(!arg@.contains(0u8)) by {
                if arg@.contains(0u8) {
                    let w = choose|w: int| 0 <= w < arg@.len() && arg@[w] == 0u8;
                    assert(arg@[w] != 0u8);
                }
            }
        }
        buffer.push(0);
        proof {
            assert(buffer@ =~= args@[i as int]@ + seq![0u8]);
        }
        buffers.push(buffer);
        i = i + 1;
    }
    Ok(buffers)
}

} // verus!
