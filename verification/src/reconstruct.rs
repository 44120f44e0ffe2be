use crate::capsule::opened_capsule;
use crate::digest::sha256_hex;
use crate::error::{CapsuleError, CapsuleErrorView};
use crate::manifest::{CapsuleSet, CapsuleSetView, CapsuleView};
use crate::pipeline::{
    ending, ending_of, extracted, file_contents, opened_upto, passphrase_text, verified_output,
    WrittenOutput,
};
use crate::processor::{key_for, StreamingCapsuleProcessor};
use vstd::prelude::*;
use vstd::seq_lib::seq_to_set_is_finite;
use vstd::set_lib::{lemma_int_range, lemma_subset_equality, set_int_range};

verus! {

/// The capsule at position `first` of a manifest's list is read before the
/// one at position `second`: its index is smaller, or the indices are equal
/// and it stands earlier in the list.
pub open spec fn reads_before(capsules: Seq<CapsuleView>, first: int, second: int) -> bool {
    capsules[first].index < capsules[second].index || (capsules[first].index
        == capsules[second].index && first < second)
}

/// `order` lists the positions of a manifest's capsules in the order in which
/// they are read: by ascending index, capsules of one index in the order of
/// the list.
pub open spec fn is_read_order(capsules: Seq<CapsuleView>, order: Seq<usize>) -> bool {
    &&& order.len() == capsules.len()
    &&& forall|k: int| 0 <= k < order.len() ==> (#[trigger] order[k]) < capsules.len()
    &&& forall|a: int, b: int|
        0 <= a < b < order.len() ==> reads_before(
            capsules,
            #[trigger] order[a] as int,
            #[trigger] order[b] as int,
        )
}

/// The order in which the capsules of a manifest are read.
pub open spec fn read_order(capsules: Seq<CapsuleView>) -> Seq<usize> {
    choose|order: Seq<usize>| is_read_order(capsules, order)
}

/// The chunks read out of the files at the first `count` positions of
/// `order`, one behind the other, or the first error. A file that is not
/// there is an `IoError`.
pub open spec fn opened_in_order(
    key: Option<Seq<u8>>,
    files: Seq<Seq<u8>>,
    order: Seq<usize>,
    count: int,
) -> Result<Seq<u8>, CapsuleErrorView>
    decreases count,
{
    if count <= 0 {
        Ok(Seq::empty())
    } else {
        match opened_in_order(key, files, order, count - 1) {
            Err(error) => Err(error),
            Ok(output) => if order[count - 1] >= files.len() {
                Err(CapsuleErrorView::IoError)
            } else {
                match opened_capsule(key, files[order[count - 1] as int]) {
                    Err(error) => Err(error),
                    Ok(chunk) => Ok(output + chunk),
                }
            },
        }
    }
}

/// What rebuilding an input from a manifest gives, where `files[p]` is the
/// file of the capsule at position `p` of the manifest's list: the chunks in
/// the order of reading, one behind the other, checked against the manifest's
/// checksum.
pub open spec fn reconstructed(set: CapsuleSetView, files: Seq<Seq<u8>>, key: Option<Seq<u8>>)
    -> Result<Seq<u8>, CapsuleErrorView> {
    verified_output(
        opened_in_order(key, files, read_order(set.capsules), set.capsules.len() as int),
        set.metadata.checksum,
    )
}

/// The positions of an order as integers.
pub open spec fn places(order: Seq<usize>) -> Seq<int> {
    Seq::new(order.len(), |k: int| order[k] as int)
}

/// Every position of the list occurs in a read order.
pub proof fn lemma_read_order_holds_all(
    capsules: Seq<CapsuleView>,
    order: Seq<usize>,
    position: int,
)
    requires
        is_read_order(capsules, order),
        0 <= position < capsules.len(),
    ensures
        exists|k: int| 0 <= k < order.len() && #[trigger] order[k] == position,
{
    let listed = places(order);
    let count = capsules.len() as int;
    assert forall|i: int, j: int|
        0 <= i < listed.len() && 0 <= j < listed.len() && i != j implies listed[i]
        != listed[j] by {
        if i < j {
            assert(reads_before(capsules, order[i] as int, order[j] as int));
        } else {
            assert(reads_before(capsules, order[j] as int, order[i] as int));
        }
    }
    listed.unique_seq_to_set();
    seq_to_set_is_finite(listed);
    lemma_int_range(0, count);
    assert forall|place: int| listed.to_set().contains(place) implies set_int_range(
        0,
        count,
    ).contains(place) by {
        let k = choose|k: int| 0 <= k < listed.len() && listed[k] == place;
        assert(order[k] < capsules.len());
    }
    lemma_subset_equality(listed.to_set(), set_int_range(0, count));
    assert(set_int_range(0, count).contains(position));
    assert(listed.contains(position));
    let k = choose|k: int| 0 <= k < listed.len() && listed[k] == position;
    assert(order[k] == position);
}

/// Two read orders of one list agree at every place.
proof fn lemma_read_orders_agree_at(
    capsules: Seq<CapsuleView>,
    first: Seq<usize>,
    second: Seq<usize>,
    place: int,
)
    requires
        is_read_order(capsules, first),
        is_read_order(capsules, second),
        0 <= place < first.len(),
    ensures
        first[place] == second[place],
    decreases place,
{
    assert forall|j: int| 0 <= j < place implies first[j] == second[j] by {
        lemma_read_orders_agree_at(capsules, first, second, j);
    }
    if first[place] != second[place] {
        lemma_read_order_holds_all(capsules, second, first[place] as int);
        let i = choose|i: int| 0 <= i < second.len() && #[trigger] second[i] == first[place] as int;
        lemma_read_order_holds_all(capsules, first, second[place] as int);
        let m = choose|m: int| 0 <= m < first.len() && #[trigger] first[m] == second[place] as int;
        if i < place {
            assert(first[i] == second[i]);
            assert(reads_before(capsules, first[i] as int, first[place] as int));
        }
        if m < place {
            assert(first[m] == second[m]);
            assert(reads_before(capsules, second[m] as int, second[place] as int));
        }
        assert(reads_before(capsules, second[place] as int, second[i] as int));
        assert(reads_before(capsules, first[place] as int, first[m] as int));
    }
}

/// A list of capsules has one read order.
pub proof fn lemma_read_order_unique(
    capsules: Seq<CapsuleView>,
    first: Seq<usize>,
    second: Seq<usize>,
)
    requires
        is_read_order(capsules, first),
        is_read_order(capsules, second),
    ensures
        first == second,
{
    assert forall|k: int| 0 <= k < first.len() implies first[k] == second[k] by {
        lemma_read_orders_agree_at(capsules, first, second, k);
    }
    assert(first =~= second);
}

/// What is read in an order depends on the places read alone.
pub proof fn lemma_opened_in_order_alike(
    key: Option<Seq<u8>>,
    files: Seq<Seq<u8>>,
    order: Seq<usize>,
    count: int,
)
    requires
        0 <= count <= order.len(),
        forall|k: int| 0 <= k < count ==> #[trigger] order[k] == k,
    ensures
        opened_in_order(key, files, order, count) == opened_upto(key, files, count),
    decreases count,
{
    if count > 0 {
        lemma_opened_in_order_alike(key, files, order, count - 1);
    }
}

/// A manifest that lists its capsules by their indices, `0` first, and
/// counts them all, is rebuilt to what extracting it gives.
pub proof fn lemma_listed_by_index_reads_alike(
    set: CapsuleSetView,
    files: Seq<Seq<u8>>,
    key: Option<Seq<u8>>,
)
    requires
        set.metadata.capsule_count == set.capsules.len(),
        forall|i: int| 0 <= i < set.capsules.len() ==> (#[trigger] set.capsules[i]).index == i,
    ensures
        reconstructed(set, files, key) == extracted(set, files, key),
{
    let straight = Seq::new(set.capsules.len(), |k: int| k as usize);
    assert(is_read_order(set.capsules, straight));
    lemma_read_order_unique(set.capsules, straight, read_order(set.capsules));
    lemma_opened_in_order_alike(key, files, straight, straight.len() as int);
}

/// What is written to the output while the files at the first `count`
/// positions of `order` are read: the chunks of the files that come before
/// the first one that fails.
pub open spec fn written_in_order(
    key: Option<Seq<u8>>,
    files: Seq<Seq<u8>>,
    order: Seq<usize>,
    count: int,
) -> Seq<u8>
    decreases count,
{
    if count <= 0 {
        Seq::empty()
    } else {
        match opened_in_order(key, files, order, count) {
            Ok(output) => output,
            Err(_) => written_in_order(key, files, order, count - 1),
        }
    }
}

/// Where every file is read, the output holds all the chunks.
pub proof fn lemma_written_in_order_when_read(
    key: Option<Seq<u8>>,
    files: Seq<Seq<u8>>,
    order: Seq<usize>,
    count: int,
    output: Seq<u8>,
)
    requires
        0 <= count,
        opened_in_order(key, files, order, count) == Ok::<Seq<u8>, CapsuleErrorView>(output),
    ensures
        written_in_order(key, files, order, count) == output,
{
    if count == 0 {
        assert(written_in_order(key, files, order, 0) == Seq::<u8>::empty());
    }
}

/// After a failure the output holds the chunks that were read before it.
pub proof fn lemma_written_in_order_before_failure(
    key: Option<Seq<u8>>,
    files: Seq<Seq<u8>>,
    order: Seq<usize>,
    failed: int,
    count: int,
    output: Seq<u8>,
)
    requires
        0 <= failed < count,
        opened_in_order(key, files, order, failed) == Ok::<Seq<u8>, CapsuleErrorView>(output),
        opened_in_order(key, files, order, failed + 1) is Err,
    ensures
        written_in_order(key, files, order, count) == output,
    decreases count - failed,
{
    lemma_order_error_stays(key, files, order, failed + 1, count);
    assert(opened_in_order(key, files, order, count) is Err);
    if count > failed + 1 {
        lemma_written_in_order_before_failure(key, files, order, failed, count - 1, output);
        assert(written_in_order(key, files, order, count) == written_in_order(
            key,
            files,
            order,
            count - 1,
        ));
    } else {
        assert(written_in_order(key, files, order, count) == written_in_order(
            key,
            files,
            order,
            failed,
        ));
        lemma_written_in_order_when_read(key, files, order, failed, output);
    }
}

/// Once a file has failed, the files behind it change nothing.
pub proof fn lemma_order_error_stays(
    key: Option<Seq<u8>>,
    files: Seq<Seq<u8>>,
    order: Seq<usize>,
    failed: int,
    count: int,
)
    requires
        failed <= count,
        opened_in_order(key, files, order, failed) is Err,
    ensures
        opened_in_order(key, files, order, count) == opened_in_order(key, files, order, failed),
    decreases count - failed,
{
    if failed < count {
        lemma_order_error_stays(key, files, order, failed, count - 1);
    }
}

/// The order in which the capsules of a manifest are read: their positions in
/// the list, sorted by index, capsules of one index staying in the order of
/// the list.
pub fn capsule_read_order(capsule_set: &CapsuleSet) -> (order: Vec<usize>)
    ensures
        is_read_order(capsule_set@.capsules, order@),
        order@ == read_order(capsule_set@.capsules),
{
    let ghost capsules = capsule_set@.capsules;
    let count = capsule_set.capsules.len();
    let mut order: Vec<usize> = Vec::with_capacity(count);
    let mut next: usize = 0;
    while next < count
        invariant
            capsules == capsule_set@.capsules,
            count == capsule_set.capsules@.len(),
            next <= count,
            order@.len() == next,
            forall|k: int| 0 <= k < order@.len() ==> (#[trigger] order@[k]) < next,
            forall|a: int, b: int|
                0 <= a < b < order@.len() ==> reads_before(
                    capsules,
                    #[trigger] order@[a] as int,
                    #[trigger] order@[b] as int,
                ),
        decreases count - next,
    {
        let index = capsule_set.capsules[next].index;
        let mut slot: usize = 0;
        while slot < order.len() && capsule_set.capsules[order[slot]].index <= index
            invariant
                capsules == capsule_set@.capsules,
                count == capsule_set.capsules@.len(),
                next < count,
                order@.len() == next,
                slot <= order@.len(),
                index == capsules[next as int].index,
                forall|k: int| 0 <= k < order@.len() ==> (#[trigger] order@[k]) < next,
                forall|k: int| 0 <= k < slot ==> capsules[(#[trigger] order@[k]) as int].index <= index,
            decreases order@.len() - slot,
        {
            slot += 1;
        }
        let ghost before = order@;
        order.insert(slot, next);
        proof {
            assert forall|a: int, b: int| 0 <= a < b < order@.len() implies reads_before(
                capsules,
                #[trigger] order@[a] as int,
                #[trigger] order@[b] as int,
            ) by {
                if b < slot {
                    assert(order@[a] == before[a] && order@[b] == before[b]);
                } else if b == slot {
                    assert(order@[a] == before[a]);
                } else if a < slot {
                    assert(order@[a] == before[a] && order@[b] == before[b - 1]);
                } else if a == slot {
                    assert(order@[b] == before[b - 1]);
                    if b - 1 > slot {
                        assert(reads_before(capsules, before[slot as int] as int, before[b - 1] as int));
                    }
                } else {
                    assert(order@[a] == before[a - 1] && order@[b] == before[b - 1]);
                }
            }
            assert forall|k: int| 0 <= k < order@.len() implies (#[trigger] order@[k]) < next
                + 1 by {
                if k < slot {
                    assert(order@[k] == before[k]);
                } else if k > slot {
                    assert(order@[k] == before[k - 1]);
                }
            }
        }
        next += 1;
    }
    proof {
        lemma_read_order_unique(capsules, order@, read_order(capsules));
    }
    order
}

/// Rebuilds an input from a manifest and the files of its capsules, as it is
/// written to an output file. `capsule_files[p]` holds the bytes of the file
/// of the capsule at position `p` of the manifest's list; the capsules are
/// read in ascending order of their indices. Each header is decoded and
/// checked, each payload unpadded, decompressed and decrypted, and each chunk
/// written behind the last; at the end the output must have the manifest's
/// checksum. What was written before a failure stays written.
pub fn reconstruct_file_from_capsules(
    capsule_set: CapsuleSet,
    capsule_files: &Vec<Vec<u8>>,
    decryption_key: Option<String>,
) -> (output: WrittenOutput)
    ensures
        output.written@ == written_in_order(
            key_for(passphrase_text(decryption_key)),
            file_contents(capsule_files@),
            read_order(capsule_set@.capsules),
            capsule_set@.capsules.len() as int,
        ),
        ending_of(output.result) == ending(
            reconstructed(
                capsule_set@,
                file_contents(capsule_files@),
                key_for(passphrase_text(decryption_key)),
            ),
        ),
        output.result is Ok ==> reconstructed(
            capsule_set@,
            file_contents(capsule_files@),
            key_for(passphrase_text(decryption_key)),
        ) == Ok::<Seq<u8>, CapsuleErrorView>(output.written@),
{
    let processor = match StreamingCapsuleProcessor::new(decryption_key) {
        Ok(processor) => processor,
        Err(error) => {
            return WrittenOutput { written: Vec::new(), result: Err(error) };
        },
    };
    let sorted_capsules = capsule_read_order(&capsule_set);
    let output = read_in_order(&processor, capsule_files, &sorted_capsules);
    if output.result.is_err() {
        return output;
    }
    let calculated_checksum = sha256_hex(output.written.as_slice());
    if calculated_checksum != capsule_set.metadata.checksum {
        return WrittenOutput {
            written: output.written,
            result: Err(CapsuleError::ChecksumMismatch),
        };
    }
    output
}

/// Reads the chunks out of the files at the positions that `order` lists, in
/// that order, and writes them one behind the other. What was written before
/// a failure stays written.
pub fn read_in_order(
    processor: &StreamingCapsuleProcessor,
    capsule_files: &Vec<Vec<u8>>,
    order: &Vec<usize>,
) -> (output: WrittenOutput)
    ensures
        output.written@ == written_in_order(
            processor.key(),
            file_contents(capsule_files@),
            order@,
            order@.len() as int,
        ),
        ending_of(output.result) == ending(
            opened_in_order(
                processor.key(),
                file_contents(capsule_files@),
                order@,
                order@.len() as int,
            ),
        ),
        output.result is Ok ==> opened_in_order(
            processor.key(),
            file_contents(capsule_files@),
            order@,
            order@.len() as int,
        ) == Ok::<Seq<u8>, CapsuleErrorView>(output.written@),
{
    let ghost key = processor.key();
    let ghost files = file_contents(capsule_files@);
    let mut output: Vec<u8> = Vec::new();
    let mut step: usize = 0;
    while step < order.len()
        invariant
            step <= order@.len(),
            key == processor.key(),
            files == file_contents(capsule_files@),
            opened_in_order(key, files, order@, step as int) == Ok::<Seq<u8>, CapsuleErrorView>(
                output@,
            ),
        decreases order@.len() - step,
    {
        let position = order[step];
        if position >= capsule_files.len() {
            proof {
                assert(opened_in_order(key, files, order@, step + 1) == Err::<
                    Seq<u8>,
                    CapsuleErrorView,
                >(CapsuleErrorView::IoError));
                lemma_order_error_stays(key, files, order@, step + 1, order@.len() as int);
                lemma_written_in_order_before_failure(
                    key,
                    files,
                    order@,
                    step as int,
                    order@.len() as int,
                    output@,
                );
            }
            return WrittenOutput { written: output, result: Err(CapsuleError::IoError) };
        }
        assert(files[position as int] == capsule_files@[position as int]@);
        let decrypted_data = match processor.open_capsule(capsule_files[position].as_slice()) {
            Ok(bytes) => bytes,
            Err(error) => {
                proof {
                    assert(opened_in_order(key, files, order@, step + 1) == Err::<
                        Seq<u8>,
                        CapsuleErrorView,
                    >(error@));
                    lemma_order_error_stays(key, files, order@, step + 1, order@.len() as int);
                    lemma_written_in_order_before_failure(
                        key,
                        files,
                        order@,
                        step as int,
                        order@.len() as int,
                        output@,
                    );
                }
                return WrittenOutput { written: output, result: Err(error) };
            },
        };
        let ghost output_before = output@;
        output.extend_from_slice(decrypted_data.as_slice());
        proof {
            assert(opened_in_order(key, files, order@, step + 1) == Ok::<
                Seq<u8>,
                CapsuleErrorView,
            >(output_before + decrypted_data@));
            assert(output@ == output_before + decrypted_data@);
        }
        step += 1;
    }
    proof {
        lemma_written_in_order_when_read(key, files, order@, order@.len() as int, output@);
    }
    WrittenOutput { written: output, result: Ok(()) }
}

} // verus!
