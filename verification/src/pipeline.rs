use crate::capsule::{built_capsule, opened_capsule, CapsuleData, CapsuleDataView};
use crate::digest::{hex_lower, sha256, sha256_hex};
use crate::error::{CapsuleError, CapsuleErrorView};
use crate::ladder::{
    chunk_plan, determine_chunk_sizes, is_capsule_size, lemma_plan_covers,
    lemma_plan_sizes_on_ladder, prefix_total, ChunkPlan,
};
use crate::manifest::{
    chunking_algorithm_name, compression_info, compression_labels, consensus_version_name,
    encryption_info, encryption_labels, Capsule, CapsuleMetadata, CapsuleMetadataView,
    CapsuleSet, CapsuleSetView, CapsuleView,
};
use crate::processor::{key_for, outcome, StreamingCapsuleProcessor};
use vstd::prelude::*;
use vstd::slice::slice_subrange;
use vstd::string::*;

verus! {

/// What making the capsules of an input gives: the manifest, and the capsules
/// to write, in the order of their indices.
#[derive(Debug, Clone)]
pub struct CreatedCapsules {
    pub capsule_set: CapsuleSet,
    pub capsules: Vec<CapsuleData>,
}

/// The mathematical value of a `CreatedCapsules`.
pub struct CreatedCapsulesView {
    pub capsule_set: CapsuleSetView,
    pub capsules: Seq<CapsuleDataView>,
}

impl View for CreatedCapsules {
    type V = CreatedCapsulesView;

    open spec fn view(&self) -> CreatedCapsulesView {
        CreatedCapsulesView {
            capsule_set: self.capsule_set@,
            capsules: capsule_views(self.capsules@),
        }
    }
}

impl CreatedCapsulesView {
    /// The bytes of the capsule files, in the order of their indices.
    pub open spec fn files(self) -> Seq<Seq<u8>> {
        capsule_files(self.capsules)
    }
}

/// The mathematical values of a list of capsules.
pub open spec fn capsule_views(capsules: Seq<CapsuleData>) -> Seq<CapsuleDataView> {
    Seq::new(capsules.len(), |i: int| capsules[i]@)
}

/// The bytes of the files of a list of capsules.
pub open spec fn capsule_files(capsules: Seq<CapsuleDataView>) -> Seq<Seq<u8>> {
    Seq::new(capsules.len(), |i: int| capsules[i].file_bytes())
}

/// The contents of a list of files.
pub open spec fn file_contents(files: Seq<Vec<u8>>) -> Seq<Seq<u8>> {
    Seq::new(files.len(), |i: int| files[i]@)
}

/// Where in an input of `total` bytes chunk `index` of a plan begins: at the
/// sum of the sizes before it, and at the input's end where that lies beyond.
pub open spec fn chunk_start(total: nat, plan: Seq<usize>, index: int) -> int {
    if prefix_total(plan, index) < total {
        prefix_total(plan, index)
    } else {
        total as int
    }
}

/// The bytes of the input that chunk `index` of a plan holds.
pub open spec fn chunk_bytes(input: Seq<u8>, plan: Seq<usize>, index: int) -> Seq<u8> {
    input.subrange(
        chunk_start(input.len(), plan, index),
        chunk_start(input.len(), plan, index + 1),
    )
}

/// The capsules of the first `count` chunks of a plan, or the error of the
/// first chunk that fails.
pub open spec fn built_capsules(
    key: Option<Seq<u8>>,
    input: Seq<u8>,
    plan: Seq<usize>,
    count: int,
) -> Result<Seq<CapsuleDataView>, CapsuleErrorView>
    decreases count,
{
    if count <= 0 {
        Ok(Seq::empty())
    } else {
        match built_capsules(key, input, plan, count - 1) {
            Err(error) => Err(error),
            Ok(capsules) => match built_capsule(
                key,
                (count - 1) as u32,
                plan[count - 1],
                chunk_bytes(input, plan, count - 1),
            ) {
                Err(error) => Err(error),
                Ok(capsule) => Ok(capsules.push(capsule)),
            },
        }
    }
}

/// Every capsule of the list is sound, and its header states its place in the
/// list as its index.
#[verifier::opaque]
pub open spec fn sound_in_order(capsules: Seq<CapsuleDataView>) -> bool {
    forall|i: int|
        0 <= i < capsules.len() ==> (#[trigger] capsules[i]).is_sound()
            && capsules[i].header.capsule_index == i
}

/// A sound capsule with the next index keeps a list sound and in order.
pub proof fn lemma_sound_push(capsules: Seq<CapsuleDataView>, capsule: CapsuleDataView)
    requires
        sound_in_order(capsules),
        capsule.is_sound(),
        capsule.header.capsule_index == capsules.len(),
    ensures
        sound_in_order(capsules.push(capsule)),
{
    reveal(sound_in_order);
}

/// What a sound list says of the capsule at `index`.
pub proof fn lemma_sound_at(capsules: Seq<CapsuleDataView>, index: int)
    requires
        sound_in_order(capsules),
        0 <= index < capsules.len(),
    ensures
        capsules[index].is_sound(),
        capsules[index].header.capsule_index == index,
{
    reveal(sound_in_order);
}

/// The entry of a manifest for the capsule at `index`.
pub open spec fn manifest_entry(index: int, capsule: CapsuleDataView, encrypted: bool)
    -> CapsuleView {
    CapsuleView {
        index: index as u32,
        size: capsule.header.capsule_size,
        hash: capsule.hash,
        encrypted,
        compressed: true,
    }
}

/// The manifest of an input and its capsules: the identifier and the checksum
/// are the SHA-256 digest of the input in hexadecimal, and the capsule sizes
/// are those of the chunk plan, whatever sizes the capsules took in the end.
pub open spec fn manifest_of(input: Seq<u8>, encrypted: bool, capsules: Seq<CapsuleDataView>)
    -> CapsuleSetView {
    let plan = chunk_plan(input.len());
    CapsuleSetView {
        id: hex_lower(sha256(input)),
        capsules: Seq::new(capsules.len(), |i: int| manifest_entry(i, capsules[i], encrypted)),
        metadata: CapsuleMetadataView {
            original_size: input.len() as u64,
            capsule_count: capsules.len() as u32,
            capsule_sizes: Seq::new(plan.len(), |i: int| plan[i] as u32),
            checksum: hex_lower(sha256(input)),
            chunking_algorithm: chunking_algorithm_name(),
            consensus_version: consensus_version_name(),
            encryption_info: if encrypted {
                Some(encryption_labels())
            } else {
                None
            },
            compression_info: Some(compression_labels(input.len() as u64)),
        },
    }
}

/// What making the capsules of `input` under an optional passphrase gives:
/// one capsule for each chunk of the plan, and the manifest; or the error of
/// the first chunk that fails.
pub open spec fn created(input: Seq<u8>, passphrase: Option<Seq<char>>) -> Result<
    CreatedCapsulesView,
    CapsuleErrorView,
> {
    let plan = chunk_plan(input.len());
    match built_capsules(key_for(passphrase), input, plan, plan.len() as int) {
        Err(error) => Err(error),
        Ok(capsules) => Ok(
            CreatedCapsulesView {
                capsule_set: manifest_of(input, passphrase is Some, capsules),
                capsules,
            },
        ),
    }
}

/// The chunks read back out of the first `count` files, one behind the other,
/// or the first error. A file that is not there is an `IoError`.
pub open spec fn opened_upto(key: Option<Seq<u8>>, files: Seq<Seq<u8>>, count: int) -> Result<
    Seq<u8>,
    CapsuleErrorView,
>
    decreases count,
{
    if count <= 0 {
        Ok(Seq::empty())
    } else {
        match opened_upto(key, files, count - 1) {
            Err(error) => Err(error),
            Ok(output) => if count - 1 >= files.len() {
                Err(CapsuleErrorView::IoError)
            } else {
                match opened_capsule(key, files[count - 1]) {
                    Err(error) => Err(error),
                    Ok(chunk) => Ok(output + chunk),
                }
            },
        }
    }
}

/// The output is accepted where its SHA-256 digest in hexadecimal is the
/// checksum; else it is a `ChecksumMismatch`.
pub open spec fn verified_output(
    opened: Result<Seq<u8>, CapsuleErrorView>,
    checksum: Seq<char>,
) -> Result<Seq<u8>, CapsuleErrorView> {
    match opened {
        Err(error) => Err(error),
        Ok(output) => if hex_lower(sha256(output)) == checksum {
            Ok(output)
        } else {
            Err(CapsuleErrorView::ChecksumMismatch)
        },
    }
}

/// What reading a capsule set back gives: the chunks of the files `0` to
/// `capsule_count - 1`, one behind the other, checked against the manifest's
/// checksum.
pub open spec fn extracted(set: CapsuleSetView, files: Seq<Seq<u8>>, key: Option<Seq<u8>>)
    -> Result<Seq<u8>, CapsuleErrorView> {
    verified_output(
        opened_upto(key, files, set.metadata.capsule_count as int),
        set.metadata.checksum,
    )
}

/// What is written to the output while the first `count` files are read:
/// the chunks of the files that come before the first one that fails.
pub open spec fn written_upto(key: Option<Seq<u8>>, files: Seq<Seq<u8>>, count: int) -> Seq<u8>
    decreases count,
{
    if count <= 0 {
        Seq::empty()
    } else {
        match opened_upto(key, files, count) {
            Ok(output) => output,
            Err(_) => written_upto(key, files, count - 1),
        }
    }
}

/// How a reading ended, without what it read.
pub open spec fn ending(read: Result<Seq<u8>, CapsuleErrorView>) -> Result<(), CapsuleErrorView> {
    match read {
        Ok(_) => Ok(()),
        Err(error) => Err(error),
    }
}

/// The mathematical value of the end of a reading.
pub open spec fn ending_of(result: Result<(), CapsuleError>) -> Result<(), CapsuleErrorView> {
    match result {
        Ok(_) => Ok(()),
        Err(error) => Err(error@),
    }
}

/// What reading a capsule set back leaves: the bytes written to the output,
/// and how the reading ended. After a failure the output holds what was
/// written before it; after a checksum mismatch that is everything read.
#[derive(Debug)]
pub struct WrittenOutput {
    pub written: Vec<u8>,
    pub result: Result<(), CapsuleError>,
}

/// The mathematical value of an attempt to make capsules.
pub open spec fn created_outcome(result: Result<CreatedCapsules, CapsuleError>) -> Result<
    CreatedCapsulesView,
    CapsuleErrorView,
> {
    match result {
        Ok(made) => Ok(made@),
        Err(error) => Err(error@),
    }
}

/// The text of an optional passphrase.
pub open spec fn passphrase_text(passphrase: Option<String>) -> Option<Seq<char>> {
    match passphrase {
        Some(text) => Some(text@),
        None => None,
    }
}

/// Once a chunk has failed, the chunks behind it change nothing.
pub proof fn lemma_first_error_stays(
    key: Option<Seq<u8>>,
    input: Seq<u8>,
    plan: Seq<usize>,
    failed: int,
    count: int,
)
    requires
        failed <= count,
        built_capsules(key, input, plan, failed) is Err,
    ensures
        built_capsules(key, input, plan, count) == built_capsules(key, input, plan, failed),
    decreases count - failed,
{
    if failed < count {
        lemma_first_error_stays(key, input, plan, failed, count - 1);
    }
}

/// What is read out of the first files depends on those files alone.
pub proof fn lemma_opened_upto_prefix(
    key: Option<Seq<u8>>,
    files: Seq<Seq<u8>>,
    others: Seq<Seq<u8>>,
    count: int,
)
    requires
        count <= files.len(),
        count <= others.len(),
        forall|i: int| 0 <= i < count ==> files[i] == others[i],
    ensures
        opened_upto(key, files, count) == opened_upto(key, others, count),
    decreases count,
{
    if count > 0 {
        lemma_opened_upto_prefix(key, files, others, count - 1);
    }
}

/// One more file that opens adds its chunk to the output.
pub proof fn lemma_opened_step(
    key: Option<Seq<u8>>,
    files: Seq<Seq<u8>>,
    count: int,
    output: Seq<u8>,
    chunk: Seq<u8>,
)
    requires
        0 <= count < files.len(),
        opened_upto(key, files, count) == Ok::<Seq<u8>, CapsuleErrorView>(output),
        opened_capsule(key, files[count]) == Ok::<Seq<u8>, CapsuleErrorView>(chunk),
    ensures
        opened_upto(key, files, count + 1) == Ok::<Seq<u8>, CapsuleErrorView>(output + chunk),
{
}

/// A file that does not open, or is not there, ends the reading with its
/// error.
pub proof fn lemma_opened_fails(
    key: Option<Seq<u8>>,
    files: Seq<Seq<u8>>,
    count: int,
    total: int,
    error: CapsuleErrorView,
)
    requires
        0 <= count < total,
        opened_upto(key, files, count) is Ok,
        if count < files.len() {
            opened_capsule(key, files[count]) == Err::<Seq<u8>, CapsuleErrorView>(error)
        } else {
            error == CapsuleErrorView::IoError
        },
    ensures
        opened_upto(key, files, total) == Err::<Seq<u8>, CapsuleErrorView>(error),
{
    assert(opened_upto(key, files, count + 1) == Err::<Seq<u8>, CapsuleErrorView>(error));
    lemma_opening_error_stays(key, files, count + 1, total);
}

/// After a failure the output holds the chunks that were read before it.
pub proof fn lemma_written_before_failure(
    key: Option<Seq<u8>>,
    files: Seq<Seq<u8>>,
    failed: int,
    count: int,
    output: Seq<u8>,
)
    requires
        0 <= failed < count,
        opened_upto(key, files, failed) == Ok::<Seq<u8>, CapsuleErrorView>(output),
        opened_upto(key, files, failed + 1) is Err,
    ensures
        written_upto(key, files, count) == output,
    decreases count - failed,
{
    lemma_opening_error_stays(key, files, failed + 1, count);
    assert(opened_upto(key, files, count) is Err);
    if count > failed + 1 {
        lemma_written_before_failure(key, files, failed, count - 1, output);
        assert(written_upto(key, files, count) == written_upto(key, files, count - 1));
    } else {
        assert(written_upto(key, files, count) == written_upto(key, files, failed));
        if failed > 0 {
            assert(written_upto(key, files, failed) == output);
        } else {
            assert(written_upto(key, files, 0) == Seq::<u8>::empty());
        }
    }
}

/// One more capsule that is made keeps what holds of the capsules made so
/// far: they are those of the plan, sound and in order, and their files read
/// back as the input up to the end of the last chunk.
proof fn lemma_next_capsule(
    key: Option<Seq<u8>>,
    input: Seq<u8>,
    plan: Seq<usize>,
    position: int,
    made: Seq<CapsuleDataView>,
    capsule: CapsuleDataView,
    output: Seq<u8>,
)
    requires
        0 <= position < plan.len(),
        position <= u32::MAX,
        made.len() == position,
        built_capsules(key, input, plan, position) == Ok::<Seq<CapsuleDataView>, CapsuleErrorView>(
            made,
        ),
        built_capsule(
            key,
            position as u32,
            plan[position],
            chunk_bytes(input, plan, position),
        ) == Ok::<CapsuleDataView, CapsuleErrorView>(capsule),
        sound_in_order(made),
        capsule.is_sound(),
        capsule.header.capsule_index == position,
        opened_upto(key, capsule_files(made), position) == Ok::<Seq<u8>, CapsuleErrorView>(
            output,
        ),
        opened_capsule(key, capsule.file_bytes()) == Ok::<Seq<u8>, CapsuleErrorView>(
            chunk_bytes(input, plan, position),
        ),
    ensures
        built_capsules(key, input, plan, position + 1) == Ok::<
            Seq<CapsuleDataView>,
            CapsuleErrorView,
        >(made.push(capsule)),
        sound_in_order(made.push(capsule)),
        opened_upto(key, capsule_files(made.push(capsule)), position + 1) == Ok::<
            Seq<u8>,
            CapsuleErrorView,
        >(output + chunk_bytes(input, plan, position)),
{
    let after = made.push(capsule);
    lemma_sound_push(made, capsule);
    lemma_opened_upto_prefix(key, capsule_files(made), capsule_files(after), position);
    assert(capsule_files(after)[position] == capsule.file_bytes());
    lemma_opened_step(
        key,
        capsule_files(after),
        position,
        output,
        chunk_bytes(input, plan, position),
    );
}

/// The chunks of a plan lie one behind the other in the input, and the last
/// one ends where the input ends.
pub proof fn lemma_chunks_cover(total: nat, index: int)
    requires
        0 <= index < chunk_plan(total).len(),
    ensures
        0 <= chunk_start(total, chunk_plan(total), index) <= chunk_start(
            total,
            chunk_plan(total),
            index + 1,
        ) <= total,
        chunk_start(total, chunk_plan(total), 0) == 0,
        chunk_start(total, chunk_plan(total), chunk_plan(total).len() as int) == total,
{
    lemma_plan_covers(total);
    lemma_prefix_total_bounds(chunk_plan(total), index);
    lemma_prefix_total_bounds(chunk_plan(total), index + 1);
}

/// A sum of sizes is not negative.
proof fn lemma_prefix_total_bounds(sizes: Seq<usize>, count: int)
    ensures
        0 <= prefix_total(sizes, count),
    decreases count,
{
    if count > 0 {
        lemma_prefix_total_bounds(sizes, count - 1);
    }
}

impl StreamingCapsuleProcessor {
    /// Cuts `buffer_data` by `chunk_sizes` and makes one capsule of each
    /// chunk, in the order of the plan. The first chunk that fails ends the
    /// work with its error.
    pub fn build_capsules(&self, buffer_data: &[u8], chunk_sizes: &ChunkPlan) -> (built: Result<
        Vec<CapsuleData>,
        CapsuleError,
    >)
        requires
            chunk_sizes@.len() <= u32::MAX,
            forall|i: int| 0 <= i < chunk_sizes@.len() ==> is_capsule_size(chunk_sizes@[i] as int),
        ensures
            match built {
                Ok(capsules) => built_capsules(
                    self.key(),
                    buffer_data@,
                    chunk_sizes@,
                    chunk_sizes@.len() as int,
                ) == Ok::<Seq<CapsuleDataView>, CapsuleErrorView>(capsule_views(capsules@)),
                Err(error) => built_capsules(
                    self.key(),
                    buffer_data@,
                    chunk_sizes@,
                    chunk_sizes@.len() as int,
                ) == Err::<Seq<CapsuleDataView>, CapsuleErrorView>(error@),
            },
            built matches Ok(capsules) ==> {
                &&& capsules@.len() == chunk_sizes@.len()
                &&& sound_in_order(capsule_views(capsules@))
                &&& opened_upto(
                    self.key(),
                    capsule_files(capsule_views(capsules@)),
                    capsules@.len() as int,
                ) == Ok::<Seq<u8>, CapsuleErrorView>(
                    buffer_data@.subrange(
                        0,
                        chunk_start(buffer_data@.len(), chunk_sizes@, chunk_sizes@.len() as int),
                    ),
                )
            },
    {
        let ghost key = self.key();
        let ghost input = buffer_data@;
        let ghost plan = chunk_sizes@;
        let input_size = buffer_data.len();
        let count = chunk_sizes.len();
        let mut capsule_data_list: Vec<CapsuleData> = Vec::new();
        let mut bytes_processed: usize = 0;
        let mut position: usize = 0;
        proof {
            assert(capsule_views(capsule_data_list@) =~= Seq::<CapsuleDataView>::empty());
            assert(input.subrange(0, 0) =~= Seq::<u8>::empty());
            reveal(sound_in_order);
        }
        while position < count
            invariant
                input == buffer_data@,
                input_size == input.len(),
                plan == chunk_sizes@,
                count == plan.len(),
                count <= u32::MAX,
                position <= count,
                self.key() == key,
                forall|i: int| 0 <= i < plan.len() ==> is_capsule_size(plan[i] as int),
                bytes_processed == chunk_start(input.len(), plan, position as int),
                capsule_data_list@.len() == position,
                built_capsules(key, input, plan, position as int) == Ok::<
                    Seq<CapsuleDataView>,
                    CapsuleErrorView,
                >(capsule_views(capsule_data_list@)),
                sound_in_order(capsule_views(capsule_data_list@)),
                opened_upto(
                    key,
                    capsule_files(capsule_views(capsule_data_list@)),
                    position as int,
                ) == Ok::<Seq<u8>, CapsuleErrorView>(input.subrange(0, bytes_processed as int)),
            decreases count - position,
        {
            let target_chunk_size = chunk_sizes.get(position);
            let remaining = input_size - bytes_processed;
            let actual_read_size = if target_chunk_size < remaining {
                target_chunk_size
            } else {
                remaining
            };
            let chunk_data = slice_subrange(
                buffer_data,
                bytes_processed,
                bytes_processed + actual_read_size,
            );
            proof {
                lemma_prefix_total_bounds(plan, position as int);
                assert(bytes_processed + actual_read_size == chunk_start(
                    input.len(),
                    plan,
                    position + 1,
                ));
                assert(chunk_data@ == chunk_bytes(input, plan, position as int));
            }
            let ghost built_before = capsule_views(capsule_data_list@);
            let ghost output_before = input.subrange(0, bytes_processed as int);
            let capsule_data = match self.build_capsule(
                chunk_data,
                position as u32,
                target_chunk_size,
            ) {
                Ok(capsule_data) => capsule_data,
                Err(error) => {
                    proof {
                        lemma_first_error_stays(key, input, plan, position + 1, plan.len() as int);
                    }
                    return Err(error);
                },
            };
            capsule_data_list.push(capsule_data);
            proof {
                assert(capsule_views(capsule_data_list@) =~= built_before.push(capsule_data@));
                lemma_next_capsule(
                    key,
                    input,
                    plan,
                    position as int,
                    built_before,
                    capsule_data@,
                    output_before,
                );
                assert(output_before + chunk_data@ =~= input.subrange(
                    0,
                    bytes_processed + actual_read_size,
                ));
            }
            bytes_processed += actual_read_size;
            position += 1;
        }
        Ok(capsule_data_list)
    }
}

/// The manifest's entries for a list of capsules.
pub fn manifest_entries(capsule_data_list: &Vec<CapsuleData>, encrypted: bool) -> (capsules: Vec<
    Capsule,
>)
    requires
        capsule_data_list@.len() <= u32::MAX,
    ensures
        capsules@.len() == capsule_data_list@.len(),
        forall|i: int|
            0 <= i < capsules@.len() ==> (#[trigger] capsules@[i])@ == manifest_entry(
                i,
                capsule_data_list@[i]@,
                encrypted,
            ),
{
    let mut capsules: Vec<Capsule> = Vec::with_capacity(capsule_data_list.len());
    let mut index: usize = 0;
    while index < capsule_data_list.len()
        invariant
            capsule_data_list@.len() <= u32::MAX,
            index <= capsule_data_list@.len(),
            capsules@.len() == index,
            forall|i: int|
                0 <= i < index ==> (#[trigger] capsules@[i])@ == manifest_entry(
                    i,
                    capsule_data_list@[i]@,
                    encrypted,
                ),
        decreases capsule_data_list@.len() - index,
    {
        let capsule_data = &capsule_data_list[index];
        capsules.push(
            Capsule {
                index: index as u32,
                size: capsule_data.header.capsule_size,
                hash: capsule_data.hash.clone(),
                encrypted,
                compressed: true,
            },
        );
        index += 1;
    }
    capsules
}

/// The sizes of a plan as the manifest records them.
pub fn planned_sizes(chunk_sizes: &ChunkPlan) -> (sizes: Vec<u32>)
    requires
        forall|i: int| 0 <= i < chunk_sizes@.len() ==> is_capsule_size(chunk_sizes@[i] as int),
    ensures
        sizes@ == Seq::new(chunk_sizes@.len(), |i: int| chunk_sizes@[i] as u32),
{
    let mut sizes: Vec<u32> = Vec::with_capacity(chunk_sizes.len());
    let mut position: usize = 0;
    while position < chunk_sizes.len()
        invariant
            position <= chunk_sizes@.len(),
            forall|i: int| 0 <= i < chunk_sizes@.len() ==> is_capsule_size(chunk_sizes@[i] as int),
            sizes@.len() == position,
            forall|i: int| 0 <= i < position ==> #[trigger] sizes@[i] == chunk_sizes@[i] as u32,
        decreases chunk_sizes@.len() - position,
    {
        sizes.push(chunk_sizes.get(position) as u32);
        position += 1;
    }
    assert(sizes@ =~= Seq::new(chunk_sizes@.len(), |i: int| chunk_sizes@[i] as u32));
    sizes
}

/// Makes the capsules of `buffer_data`: the input is cut by the chunk plan of
/// its length, each chunk becomes one capsule, and the manifest describes the
/// set. `post_process_padding` is accepted and has no effect: the padding
/// always follows encryption and compression.
///
/// The result is a function of the input and the passphrase alone. Every
/// capsule made is sound, and `extract_data_capsule` under the same
/// passphrase reads the input back out of the capsules' files.
pub fn create_data_capsule(
    buffer_data: &[u8],
    post_process_padding: bool,
    encryption_key: Option<String>,
) -> (made: Result<CreatedCapsules, CapsuleError>)
    requires
        chunk_plan(buffer_data@.len()).len() <= u32::MAX,
    ensures
        created_outcome(made) == created(buffer_data@, passphrase_text(encryption_key)),
        made matches Ok(set) ==> {
            &&& set@.capsules.len() == chunk_plan(buffer_data@.len()).len()
            &&& sound_in_order(set@.capsules)
            &&& set@.capsule_set.id == hex_lower(sha256(buffer_data@))
            &&& set@.capsule_set.metadata.checksum == set@.capsule_set.id
            &&& set@.capsule_set.metadata.capsule_count == set@.capsules.len()
            &&& set@.capsule_set.metadata.capsule_sizes == Seq::new(
                chunk_plan(buffer_data@.len()).len(),
                |i: int| chunk_plan(buffer_data@.len())[i] as u32,
            )
            &&& extracted(
                set@.capsule_set,
                set@.files(),
                key_for(passphrase_text(encryption_key)),
            ) == Ok::<Seq<u8>, CapsuleErrorView>(buffer_data@)
        },
{
    let encrypted = encryption_key.is_some();
    let ghost input = buffer_data@;
    let processor = match StreamingCapsuleProcessor::new(encryption_key) {
        Ok(processor) => processor,
        Err(error) => {
            return Err(error);
        },
    };
    let input_size = buffer_data.len();
    let chunk_sizes = determine_chunk_sizes(input_size as u64);
    proof {
        lemma_plan_sizes_on_ladder(input.len());
    }
    let capsule_data_list = match processor.build_capsules(buffer_data, &chunk_sizes) {
        Ok(capsule_data_list) => capsule_data_list,
        Err(error) => {
            return Err(error);
        },
    };
    let final_id = sha256_hex(buffer_data);
    let capsules = manifest_entries(&capsule_data_list, encrypted);
    let capsule_set = CapsuleSet {
        id: final_id.clone(),
        capsules,
        metadata: CapsuleMetadata {
            original_size: input_size as u64,
            capsule_count: capsule_data_list.len() as u32,
            capsule_sizes: planned_sizes(&chunk_sizes),
            checksum: final_id.clone(),
            chunking_algorithm: String::from_str("DIG_DETERMINISTIC_V1"),
            consensus_version: String::from_str("DIG_CAPSULE_V1"),
            encryption_info: if encrypted {
                Some(encryption_info())
            } else {
                None
            },
            compression_info: Some(compression_info(input_size as u64)),
        },
    };
    let made = CreatedCapsules { capsule_set, capsules: capsule_data_list };
    proof {
        let views = capsule_views(made.capsules@);
        lemma_chunks_cover(input.len(), 0);
        assert(input.subrange(0, input.len() as int) =~= input);
        assert(made@.files() == capsule_files(views));
        assert(made@.capsule_set.capsules =~= manifest_of(input, encrypted, views).capsules);
        assert(made@.capsule_set == manifest_of(input, encrypted, views));
    }
    Ok(made)
}

/// Reads a capsule set back, as it is written to an output file.
/// `capsule_files` holds the bytes of the capsule files `0`, `1`, ... in that
/// order; the manifest says how many are read. Each header is decoded and
/// checked, each payload unpadded, decompressed and decrypted, and each chunk
/// written behind the last; at the end the output must have the manifest's
/// checksum. What was written before a failure stays written.
pub fn extract_data_capsule_to_file(
    capsule_set: &CapsuleSet,
    capsule_files: &Vec<Vec<u8>>,
    decryption_key: Option<String>,
) -> (output: WrittenOutput)
    ensures
        output.written@ == written_upto(
            key_for(passphrase_text(decryption_key)),
            file_contents(capsule_files@),
            capsule_set@.metadata.capsule_count as int,
        ),
        ending_of(output.result) == ending(
            extracted(
                capsule_set@,
                file_contents(capsule_files@),
                key_for(passphrase_text(decryption_key)),
            ),
        ),
        output.result is Ok ==> extracted(
            capsule_set@,
            file_contents(capsule_files@),
            key_for(passphrase_text(decryption_key)),
        ) == Ok::<Seq<u8>, CapsuleErrorView>(output.written@),
{
    let ghost key = key_for(passphrase_text(decryption_key));
    let ghost files = file_contents(capsule_files@);
    let ghost count = capsule_set@.metadata.capsule_count as int;
    let mut output: Vec<u8> = Vec::new();
    let processor = match StreamingCapsuleProcessor::new(decryption_key) {
        Ok(processor) => processor,
        Err(error) => {
            return WrittenOutput { written: output, result: Err(error) };
        },
    };
    let mut index: u32 = 0;
    while index < capsule_set.metadata.capsule_count
        invariant
            index <= capsule_set.metadata.capsule_count,
            count == capsule_set@.metadata.capsule_count,
            processor.key() == key,
            key == key_for(passphrase_text(decryption_key)),
            files == file_contents(capsule_files@),
            opened_upto(key, files, index as int) == Ok::<Seq<u8>, CapsuleErrorView>(output@),
        decreases capsule_set.metadata.capsule_count - index,
    {
        if index as usize >= capsule_files.len() {
            proof {
                lemma_opened_fails(key, files, index as int, count, CapsuleErrorView::IoError);
                lemma_opening_error_stays(key, files, index + 1, count);
                lemma_written_before_failure(key, files, index as int, count, output@);
            }
            return WrittenOutput { written: output, result: Err(CapsuleError::IoError) };
        }
        assert(files[index as int] == capsule_files@[index as int]@);
        let decrypted_data = match processor.open_capsule(capsule_files[index as usize].as_slice()) {
            Ok(bytes) => bytes,
            Err(error) => {
                proof {
                    lemma_opened_fails(key, files, index as int, count, error@);
                    lemma_opening_error_stays(key, files, index + 1, count);
                    lemma_written_before_failure(key, files, index as int, count, output@);
                }
                return WrittenOutput { written: output, result: Err(error) };
            },
        };
        let ghost output_before = output@;
        output.extend_from_slice(decrypted_data.as_slice());
        proof {
            lemma_opened_step(key, files, index as int, output_before, decrypted_data@);
            assert(output@ == output_before + decrypted_data@);
        }
        index += 1;
    }
    let calculated_checksum = sha256_hex(output.as_slice());
    if calculated_checksum != capsule_set.metadata.checksum {
        return WrittenOutput { written: output, result: Err(CapsuleError::ChecksumMismatch) };
    }
    WrittenOutput { written: output, result: Ok(()) }
}

/// Reads the input back out of a capsule set: what
/// `extract_data_capsule_to_file` writes, where it ends well, and its error
/// where it does not.
pub fn extract_data_capsule(
    capsule_set: &CapsuleSet,
    capsule_files: &Vec<Vec<u8>>,
    decryption_key: Option<String>,
) -> (output: Result<Vec<u8>, CapsuleError>)
    ensures
        outcome(output) == extracted(
            capsule_set@,
            file_contents(capsule_files@),
            key_for(passphrase_text(decryption_key)),
        ),
{
    let extracted = extract_data_capsule_to_file(capsule_set, capsule_files, decryption_key);
    match extracted.result {
        Ok(_) => Ok(extracted.written),
        Err(error) => Err(error),
    }
}

/// Once a file has failed, the files behind it change nothing.
pub proof fn lemma_opening_error_stays(
    key: Option<Seq<u8>>,
    files: Seq<Seq<u8>>,
    failed: int,
    count: int,
)
    requires
        failed <= count,
        opened_upto(key, files, failed) is Err,
    ensures
        opened_upto(key, files, count) == opened_upto(key, files, failed),
    decreases count - failed,
{
    if failed < count {
        lemma_opening_error_stays(key, files, failed, count - 1);
    }
}

} // verus!
