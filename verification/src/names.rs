use vstd::prelude::*;
use vstd::string::*;

verus! {

/// The end of a manifest file's name, in bytes: ASCII `_metadata.json`.
pub const METADATA_SUFFIX: [u8; 14] = [
    0x5f,
    0x6d,
    0x65,
    0x74,
    0x61,
    0x64,
    0x61,
    0x74,
    0x61,
    0x2e,
    0x6a,
    0x73,
    0x6f,
    0x6e,
];

/// How many characters of the identifier begin a file name.
pub const NAME_PREFIX_LEN: usize = 16;

/// The character of a decimal digit.
pub open spec fn digit_char(digit: int) -> char {
    seq!['0', '1', '2', '3', '4', '5', '6', '7', '8', '9'][digit]
}

/// `value` in decimal, without leading zeros.
pub open spec fn decimal_text(value: nat) -> Seq<char>
    decreases value,
{
    if value < 10 {
        seq![digit_char(value as int)]
    } else {
        decimal_text(value / 10).push(digit_char((value % 10) as int))
    }
}

/// A capsule's index as it stands in a file name: in decimal, filled with
/// zeros to three digits.
pub open spec fn index_text(index: u32) -> Seq<char> {
    if index < 10 {
        seq!['0', '0'] + decimal_text(index as nat)
    } else if index < 100 {
        seq!['0'] + decimal_text(index as nat)
    } else {
        decimal_text(index as nat)
    }
}

/// The name of the file of capsule `index` of the set `id`: the first 16
/// characters of the identifier, `_`, the index, `.capsule`.
pub open spec fn capsule_name(id: Seq<char>, index: u32) -> Seq<char> {
    id.subrange(0, 16) + seq!['_'] + index_text(index) + ".capsule"@
}

/// The name of the manifest file of the set `id`: the first 16 characters of
/// the identifier, then `_metadata.json`.
pub open spec fn metadata_name(id: Seq<char>) -> Seq<char> {
    id.subrange(0, 16) + "_metadata.json"@
}

/// `bytes` ends with `suffix`.
pub open spec fn ends_with(bytes: Seq<u8>, suffix: Seq<u8>) -> bool {
    bytes.len() >= suffix.len() && bytes.subrange(bytes.len() - suffix.len(), bytes.len() as int)
        == suffix
}

/// A file of this name is taken for a manifest: the name's bytes end with
/// `_metadata.json`.
pub open spec fn names_manifest(name: Seq<char>) -> bool {
    ends_with(vstd::utf8::encode_utf8(name), METADATA_SUFFIX@)
}

/// The one-character text of a decimal digit.
fn digit_text(digit: u32) -> (text: &'static str)
    requires
        digit < 10,
    ensures
        text@ == seq![digit_char(digit as int)],
{
    proof {
        reveal_strlit("0");
        reveal_strlit("1");
        reveal_strlit("2");
        reveal_strlit("3");
        reveal_strlit("4");
        reveal_strlit("5");
        reveal_strlit("6");
        reveal_strlit("7");
        reveal_strlit("8");
        reveal_strlit("9");
    }
    let text = if digit == 0 {
        "0"
    } else if digit == 1 {
        "1"
    } else if digit == 2 {
        "2"
    } else if digit == 3 {
        "3"
    } else if digit == 4 {
        "4"
    } else if digit == 5 {
        "5"
    } else if digit == 6 {
        "6"
    } else if digit == 7 {
        "7"
    } else if digit == 8 {
        "8"
    } else {
        "9"
    };
    assert(text@ =~= seq![digit_char(digit as int)]);
    text
}

/// Appends `value` in decimal to `text`.
fn push_decimal(text: &mut String, value: u32)
    ensures
        final(text)@ == old(text)@ + decimal_text(value as nat),
    decreases value,
{
    if value >= 10 {
        push_decimal(text, value / 10);
    }
    text.append(digit_text(value % 10));
    assert(text@ =~= old(text)@ + decimal_text(value as nat));
}

/// A capsule's index as it stands in a file name.
pub fn index_label(index: u32) -> (label: String)
    ensures
        label@ == index_text(index),
{
    proof {
        reveal_strlit("00");
        reveal_strlit("0");
        reveal_strlit("");
    }
    let mut label = if index < 10 {
        String::from_str("00")
    } else if index < 100 {
        String::from_str("0")
    } else {
        String::from_str("")
    };
    push_decimal(&mut label, index);
    assert(label@ =~= index_text(index));
    label
}

/// The name of the file of capsule `index` of the set `id`.
pub fn capsule_file_name(id: &str, index: u32) -> (name: String)
    requires
        id.is_ascii(),
        id@.len() >= 16,
    ensures
        name@ == capsule_name(id@, index),
{
    proof {
        reveal_strlit("_");
    }
    let mut name = String::from_str(id.substring_ascii(0, NAME_PREFIX_LEN));
    name.append("_");
    name.append(index_label(index).as_str());
    name.append(".capsule");
    assert(name@ =~= capsule_name(id@, index));
    name
}

/// The name of the manifest file of the set `id`.
pub fn metadata_file_name(id: &str) -> (name: String)
    requires
        id.is_ascii(),
        id@.len() >= 16,
    ensures
        name@ == metadata_name(id@),
{
    let mut name = String::from_str(id.substring_ascii(0, NAME_PREFIX_LEN));
    name.append("_metadata.json");
    name
}

/// Whether a file of this name is taken for a manifest.
pub fn is_metadata_file_name(name: &str) -> (found: bool)
    ensures
        found == names_manifest(name@),
{
    let bytes = name.as_bytes();
    let len = bytes.len();
    if len < 14 {
        return false;
    }
    let start = len - 14;
    let mut position: usize = 0;
    while position < 14
        invariant
            bytes@ == vstd::utf8::encode_utf8(name@),
            len == bytes@.len(),
            len >= 14,
            start == len - 14,
            position <= 14,
            forall|i: int| 0 <= i < position ==> bytes@[start + i] == METADATA_SUFFIX[i],
        decreases 14 - position,
    {
        if bytes[start + position] != METADATA_SUFFIX[position] {
            assert(bytes@.subrange(start as int, len as int)[position as int]
                != METADATA_SUFFIX@[position as int]);
            return false;
        }
        position += 1;
    }
    assert(bytes@.subrange(start as int, len as int) =~= METADATA_SUFFIX@);
    true
}

/// Picks the manifest among the files of a directory: the position of the
/// first name that ends with `_metadata.json`, if there is one.
pub fn find_metadata_file(names: &Vec<String>) -> (found: Option<usize>)
    ensures
        match found {
            Some(position) => {
                &&& position < names@.len()
                &&& names_manifest(names@[position as int]@)
                &&& forall|i: int| 0 <= i < position ==> !names_manifest(#[trigger] names@[i]@)
            },
            None => forall|i: int| 0 <= i < names@.len() ==> !names_manifest(#[trigger] names@[i]@),
        },
{
    let mut position: usize = 0;
    while position < names.len()
        invariant
            position <= names@.len(),
            forall|i: int| 0 <= i < position ==> !names_manifest(#[trigger] names@[i]@),
        decreases names@.len() - position,
    {
        if is_metadata_file_name(names[position].as_str()) {
            return Some(position);
        }
        position += 1;
    }
    None
}

} // verus!
