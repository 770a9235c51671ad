use vstd::prelude::*;

verus! {

/// Size of the buffer an input report is read into.
pub const INPUT_REPORT_SIZE: usize = 64;

/// The bytes of an output report: the report ID, then the data.
pub fn build_output_report(report_id: u8, data: &[u8]) -> (buf: Vec<u8>)
    ensures
        buf@ == seq![report_id] + data@,
{
    let mut buf: Vec<u8> = Vec::new();
    buf.push(report_id);
    let mut k: usize = 0;
    while k < data.len()
        invariant
            k <= data@.len(),
            buf@ == seq![report_id] + data@.subrange(0, k as int),
        decreases data@.len() - k,
    {
        buf.push(data[k]);
        k = k + 1;
    }
    assert(data@.subrange(0, data@.len() as int) =~= data@);
    buf
}

/// Splits the first `len` bytes of a received input report into its report
/// ID (the first byte) and its data (the rest).
pub fn split_input_report(buf: &[u8], len: usize) -> (parts: (u8, Vec<u8>))
    requires
        1 <= len <= buf@.len(),
    ensures
        parts.0 == buf@[0],
        parts.1@ == buf@.subrange(1, len as int),
{
    let report_id = buf[0];
    let mut data: Vec<u8> = Vec::new();
    let mut k: usize = 1;
    while k < len
        invariant
            1 <= k <= len <= buf@.len(),
            data@ == buf@.subrange(1, k as int),
        decreases len - k,
    {
        data.push(buf[k]);
        k = k + 1;
    }
    (report_id, data)
}

/// Splitting a report built from an ID and data gives them back.
pub proof fn lemma_report_roundtrip(report_id: u8, data: Seq<u8>)
    ensures
        (seq![report_id] + data)[0] == report_id,
        (seq![report_id] + data).subrange(1, data.len() + 1int) == data,
{
    assert((seq![report_id] + data).subrange(1, data.len() + 1int) =~= data);
}

} // verus!
