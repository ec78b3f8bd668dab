use vstd::prelude::*;

verus! {

/// How many bytes each answer of the server carries: 16 KiB.
pub const PONG_PAYLOAD_LEN: usize = 16384;

/// An answer of the benchmark stream.
#[derive(Clone, Debug)]
pub struct Pong {
    pub data: Vec<u8>,
}

/// The body of every answer: `PONG_PAYLOAD_LEN` zero bytes.
pub fn pong_payload() -> (data: Vec<u8>)
    ensures
        data@.len() == PONG_PAYLOAD_LEN,
        forall|i: int| 0 <= i < data@.len() ==> data@[i] == 0u8,
{
    let mut data: Vec<u8> = Vec::with_capacity(PONG_PAYLOAD_LEN);
    let mut i: usize = 0;
    while i < PONG_PAYLOAD_LEN
        invariant
            i <= PONG_PAYLOAD_LEN,
            data@.len() == i,
            forall|j: int| 0 <= j < data@.len() ==> data@[j] == 0u8,
        decreases PONG_PAYLOAD_LEN - i,
    {
        data.push(0u8);
        i = i + 1;
    }
    data
}

/// The server's answer to what came in on the stream: a pong carrying
/// `payload` for each ping, and none (the stream ends with the error) where
/// receiving failed.
pub fn answer(payload: &Vec<u8>, received_ok: bool) -> (r: Option<Pong>)
    ensures
        r is Some <==> received_ok,
        r matches Some(p) ==> p.data@ == payload@,
{
    if received_ok {
        let data = payload.clone();
        assert(data@ =~= payload@);
        Some(Pong { data })
    } else {
        None
    }
}

} // verus!
