//! Resolved file-copy definitions and byte-content ownership facts.

use vstd::prelude::*;
use crate::domain::effects::CopyView;
use crate::domain::ids::FullyQualifiedResourceId;
use crate::domain::paths::{begins, same_path, ResolvedPath};
use crate::text::{chars_of, copy_of, opens, text_equal, text_of};

verus! {

/// A verified SHA-256 fingerprint of exact regular-file bytes.
#[derive(Debug, PartialEq, Eq)]
pub struct ContentFingerprint {
    text: String,
}

/// The reason a content fingerprint is not canonical.
#[derive(Clone, Copy, Debug, PartialEq, Eq, Structural)]
pub enum ContentFingerprintError {
    MissingPrefix,
    WrongLength,
    NotLowercaseHex,
}

/// The start of every fingerprint.
pub open spec fn fingerprint_prefix() -> Seq<char> {
    seq!['s', 'h', 'a', '2', '5', '6', ':']
}

/// Whether a character is a lowercase hexadecimal digit.
pub open spec fn is_lowercase_hex(character: char) -> bool {
    '0' <= character <= '9' || 'a' <= character <= 'f'
}

/// Whether a text is the written form of a fingerprint.
pub open spec fn is_fingerprint(text: Seq<char>) -> bool {
    &&& begins(text, fingerprint_prefix())
    &&& text.len() == 71
    &&& forall|i: int| 7 <= i < 71 ==> is_lowercase_hex(#[trigger] text[i])
}

/// How many bytes the digits take when written as UTF-8.
pub open spec fn digits_length(text: Seq<char>) -> int {
    vstd::utf8::encode_utf8(text.skip(7)).len() as int
}

impl View for ContentFingerprint {
    type V = Seq<char>;

    closed spec fn view(&self) -> Seq<char> {
        self.text@
    }
}

impl Clone for ContentFingerprint {
    fn clone(&self) -> (copy: Self)
        ensures
            copy@ == self@,
    {
        proof {
            use_type_invariant(&*self);
        }
        ContentFingerprint { text: self.text.clone() }
    }
}

impl ContentFingerprint {
    #[verifier::type_invariant]
    spec fn canonical(self) -> bool {
        is_fingerprint(self.text@)
    }

    /// Validates the persisted `sha256:<lowercase-hex>` representation.
    pub fn parse(value: String) -> (outcome: Result<Self, ContentFingerprintError>)
        ensures
            match outcome {
                Ok(fingerprint) => is_fingerprint(value@) && fingerprint@ == value@,
                Err(ContentFingerprintError::MissingPrefix) => !begins(
                    value@,
                    fingerprint_prefix(),
                ),
                Err(ContentFingerprintError::WrongLength) => begins(value@, fingerprint_prefix())
                    && digits_length(value@) != 64,
                Err(ContentFingerprintError::NotLowercaseHex) => begins(
                    value@,
                    fingerprint_prefix(),
                ) && digits_length(value@) == 64 && exists|i: int|
                    7 <= i < value@.len() && !is_lowercase_hex(#[trigger] value@[i]),
            },
    {
        let chars = chars_of(value.as_str());
        if chars.len() < 7 || chars[0] != 's' || chars[1] != 'h' || chars[2] != 'a' || chars[3]
            != '2' || chars[4] != '5' || chars[5] != '6' || chars[6] != ':' {
            proof {
                let start = chars@.subrange(0, 7);
                if begins(chars@, fingerprint_prefix()) {
                    assert(start[0] == 's' && start[1] == 'h' && start[2] == 'a' && start[3] == '2'
                        && start[4] == '5' && start[5] == '6' && start[6] == ':');
                }
            }
            return Err(ContentFingerprintError::MissingPrefix);
        }
        assert(chars@.subrange(0, 7) =~= fingerprint_prefix());
        let digits = text_of(&chars, 7, chars.len());
        assert(digits@ =~= value@.skip(7));
        if digits.as_str().as_bytes().len() != 64 {
            return Err(ContentFingerprintError::WrongLength);
        }
        let mut i: usize = 7;
        while i < chars.len()
            invariant
                7 <= i <= chars@.len(),
                chars@ == value@,
                begins(value@, fingerprint_prefix()),
                digits_length(value@) == 64,
                forall|k: int| 7 <= k < i ==> is_lowercase_hex(#[trigger] value@[k]),
            decreases chars.len() - i,
        {
            let character = chars[i];
            if !(('0' <= character && character <= '9') || ('a' <= character && character
                <= 'f')) {
                assert(!is_lowercase_hex(value@[i as int]));
                return Err(ContentFingerprintError::NotLowercaseHex);
            }
            i += 1;
        }
        proof {
            assert forall|k: int| 0 <= k < value@.skip(7).len() implies '\0'
                <= #[trigger] value@.skip(7)[k] <= '\u{7f}' by {
                assert(is_lowercase_hex(value@[k + 7]));
            }
            vstd::utf8::is_ascii_chars_encode_utf8(value@.skip(7));
        }
        Ok(ContentFingerprint { text: value })
    }

    /// The canonical persisted representation.
    pub fn as_str(&self) -> (text: &str)
        ensures
            text@ == self@,
            is_fingerprint(text@),
    {
        proof {
            use_type_invariant(self);
        }
        self.text.as_str()
    }

    /// Whether two fingerprints are the same.
    pub fn same(&self, other: &Self) -> (equal: bool)
        ensures
            equal == (self@ == other@),
    {
        text_equal(self.text.as_str(), other.text.as_str())
    }
}

impl ContentFingerprintError {
    /// What the error says.
    pub open spec fn message(self) -> Seq<char> {
        match self {
            ContentFingerprintError::MissingPrefix =>
                "content fingerprint is missing the sha256 prefix"@,
            ContentFingerprintError::WrongLength =>
                "content fingerprint must contain 64 hexadecimal characters"@,
            ContentFingerprintError::NotLowercaseHex =>
                "content fingerprint must use lowercase hexadecimal characters"@,
        }
    }

    /// What the error says.
    pub fn to_text(&self) -> (text: String)
        ensures
            text@ == self.message(),
    {
        match self {
            ContentFingerprintError::MissingPrefix => copy_of(
                "content fingerprint is missing the sha256 prefix",
            ),
            ContentFingerprintError::WrongLength => copy_of(
                "content fingerprint must contain 64 hexadecimal characters",
            ),
            ContentFingerprintError::NotLowercaseHex => copy_of(
                "content fingerprint must use lowercase hexadecimal characters",
            ),
        }
    }
}

/// A canonical desired file-copy definition with no declaration-level syntax.
#[derive(Debug, PartialEq, Eq)]
pub struct ResolvedFileCopy {
    resource_id: FullyQualifiedResourceId,
    source_path: ResolvedPath,
    target_path: ResolvedPath,
    source_content_fingerprint: ContentFingerprint,
}

/// The reason a file-copy definition is not canonical.
#[derive(Clone, Copy, Debug, PartialEq, Eq, Structural)]
pub enum ResolvedFileCopyError {
    SourceEqualsTarget,
}

impl View for ResolvedFileCopy {
    type V = CopyView;

    closed spec fn view(&self) -> CopyView {
        CopyView {
            resource_id: self.resource_id@,
            source_path: self.source_path@,
            target_path: self.target_path@,
            content_fingerprint: self.source_content_fingerprint@,
        }
    }
}

impl Clone for ResolvedFileCopy {
    fn clone(&self) -> (copy: Self)
        ensures
            copy@ == self@,
    {
        ResolvedFileCopy {
            resource_id: self.resource_id.clone(),
            source_path: self.source_path.clone(),
            target_path: self.target_path.clone(),
            source_content_fingerprint: self.source_content_fingerprint.clone(),
        }
    }
}

impl ResolvedFileCopy {
    /// Creates a resolved copy once source-byte inspection has established its fingerprint.
    pub fn new(
        resource_id: FullyQualifiedResourceId,
        source_path: ResolvedPath,
        target_path: ResolvedPath,
        source_content_fingerprint: ContentFingerprint,
    ) -> (outcome: Result<Self, ResolvedFileCopyError>)
        ensures
            match outcome {
                Ok(copy) => !same_path(source_path@, target_path@) && copy@ == (CopyView {
                    resource_id: resource_id@,
                    source_path: source_path@,
                    target_path: target_path@,
                    content_fingerprint: source_content_fingerprint@,
                }),
                Err(ResolvedFileCopyError::SourceEqualsTarget) => same_path(
                    source_path@,
                    target_path@,
                ),
            },
    {
        if source_path.same(&target_path) {
            return Err(ResolvedFileCopyError::SourceEqualsTarget);
        }
        Ok(ResolvedFileCopy { resource_id, source_path, target_path, source_content_fingerprint })
    }

    /// The resource that the copy materializes.
    pub fn resource_id(&self) -> (id: &FullyQualifiedResourceId)
        ensures
            id@ == self@.resource_id,
    {
        &self.resource_id
    }

    /// The source of the copy.
    pub fn source_path(&self) -> (path: &ResolvedPath)
        ensures
            path@ == self@.source_path,
    {
        &self.source_path
    }

    /// Where the copy stands.
    pub fn target_path(&self) -> (path: &ResolvedPath)
        ensures
            path@ == self@.target_path,
    {
        &self.target_path
    }

    /// The fingerprint of the source bytes.
    pub fn source_content_fingerprint(&self) -> (fingerprint: &ContentFingerprint)
        ensures
            fingerprint@ == self@.content_fingerprint,
    {
        &self.source_content_fingerprint
    }
}

impl ResolvedFileCopyError {
    /// What the error says.
    pub fn to_text(&self) -> (text: String)
        ensures
            text@ == "a file-copy source and target must not be the same path"@,
    {
        copy_of("a file-copy source and target must not be the same path")
    }
}

/// A fingerprint is the name of its hash and then sixty-four small hexadecimal digits, and nothing else
/// is one. What is wrong first is what is answered: the name, then the length, then the digits.
pub proof fn fingerprint_is_a_name_and_its_digits(
    value: String,
    digits: Seq<char>,
    outcome: Result<ContentFingerprint, ContentFingerprintError>,
)
    requires
        call_ensures(ContentFingerprint::parse, (value,), outcome),
    ensures
        !opens(value@, "sha256:"@) <==> outcome == Err::<
            ContentFingerprint,
            ContentFingerprintError,
        >(ContentFingerprintError::MissingPrefix),
        value@ == "sha256:"@ + digits ==> (outcome is Ok <==> digits.len() == 64 && forall|i: int|
            0 <= i < digits.len() ==> "0123456789abcdef"@.contains(#[trigger] digits[i])),
        value@ == "sha256:"@ + digits && vstd::utf8::is_ascii_chars(digits) ==> (outcome == Err::<
            ContentFingerprint,
            ContentFingerprintError,
        >(ContentFingerprintError::WrongLength) <==> digits.len() != 64),
        (outcome matches Ok(fingerprint) ==> fingerprint@ == value@),
{
    reveal_strlit("sha256:");
    reveal_strlit("0123456789abcdef");
    let text = value@;
    let prefix = "sha256:"@;
    assert(prefix =~= fingerprint_prefix());
    assert(opens(text, prefix) <==> begins(text, fingerprint_prefix())) by {
        if opens(text, prefix) {
            assert(text.subrange(0, 7) =~= fingerprint_prefix());
        }
        if begins(text, fingerprint_prefix()) {
            assert forall|i: int| 0 <= i < prefix.len() implies #[trigger] text[i] == prefix[i] by {
                assert(text.subrange(0, 7)[i] == fingerprint_prefix()[i]);
            }
        }
    }
    assert forall|character: char| #[trigger] "0123456789abcdef"@.contains(character)
        <==> is_lowercase_hex(character) by {
        lemma_hex(character);
    }
    if text == prefix + digits {
        assert(text.skip(7) =~= digits);
        assert(opens(text, prefix));
        if vstd::utf8::is_ascii_chars(digits) {
            vstd::utf8::is_ascii_chars_encode_utf8(digits);
        }
        if outcome is Ok {
            assert forall|i: int| 0 <= i < digits.len() implies "0123456789abcdef"@.contains(
                #[trigger] digits[i],
            ) by {
                assert(digits[i] == text[i + 7]);
                assert(is_lowercase_hex(text[i + 7]));
            }
        }
        if digits.len() == 64 && forall|i: int|
            0 <= i < digits.len() ==> "0123456789abcdef"@.contains(#[trigger] digits[i]) {
            assert forall|i: int| 0 <= i < digits.len() implies '\0' <= #[trigger] digits[i]
                <= '\u{7f}' by {
                assert("0123456789abcdef"@.contains(digits[i]));
                assert(is_lowercase_hex(digits[i]));
            }
            vstd::utf8::is_ascii_chars_encode_utf8(digits);
            assert forall|i: int| 7 <= i < text.len() implies is_lowercase_hex(#[trigger] text[i]) by {
                assert(text[i] == digits[i - 7]);
                assert("0123456789abcdef"@.contains(digits[i - 7]));
            }
        }
    }
}

proof fn lemma_hex(character: char)
    ensures
        "0123456789abcdef"@.contains(character) <==> is_lowercase_hex(character),
{
    reveal_strlit("0123456789abcdef");
    let digits = "0123456789abcdef"@;
    if '0' <= character <= '9' {
        let i = character as int - '0' as int;
        assert(digits[i] == character);
    }
    if 'a' <= character <= 'f' {
        let i = character as int - 'a' as int + 10;
        assert(digits[i] == character);
    }
}

/// A wanted copy stands elsewhere than its source.
pub proof fn wanted_copy_stands_elsewhere(
    resource_id: FullyQualifiedResourceId,
    source_path: ResolvedPath,
    target_path: ResolvedPath,
    fingerprint: ContentFingerprint,
    outcome: Result<ResolvedFileCopy, ResolvedFileCopyError>,
)
    requires
        call_ensures(
            ResolvedFileCopy::new,
            (resource_id, source_path, target_path, fingerprint),
            outcome,
        ),
    ensures
        outcome is Ok <==> !same_path(source_path@, target_path@),
        (outcome matches Ok(copy) ==> copy@.resource_id == resource_id@ && copy@.source_path
            == source_path@ && copy@.target_path == target_path@ && copy@.content_fingerprint
            == fingerprint@),
{
}

/// A text that is no fingerprint is refused in words of its own for what is missing, and so is a copy
/// onto itself.
pub proof fn refused_fingerprint_says_why(
    error: ContentFingerprintError,
    text: String,
    onto_itself: ResolvedFileCopyError,
    said: String,
)
    requires
        call_ensures(ContentFingerprintError::to_text, (&error,), text),
        call_ensures(ResolvedFileCopyError::to_text, (&onto_itself,), said),
    ensures
        error is MissingPrefix ==> text@ == "content fingerprint is missing the sha256 prefix"@,
        error is WrongLength ==> text@
            == "content fingerprint must contain 64 hexadecimal characters"@,
        error is NotLowercaseHex ==> text@
            == "content fingerprint must use lowercase hexadecimal characters"@,
        said@ == "a file-copy source and target must not be the same path"@,
{
}

/// Every part of a wanted copy reads back as it was given.
pub proof fn wanted_copy_reads_back(
    resource_id: FullyQualifiedResourceId,
    source_path: ResolvedPath,
    target_path: ResolvedPath,
    fingerprint: ContentFingerprint,
    made: ResolvedFileCopy,
)
    requires
        call_ensures(
            ResolvedFileCopy::new,
            (resource_id, source_path, target_path, fingerprint),
            Ok(made),
        ),
    ensures
        forall|read: &FullyQualifiedResourceId|
            #[trigger] call_ensures(ResolvedFileCopy::resource_id, (&made,), read) ==> read@ == resource_id@,
        forall|read: &ResolvedPath|
            #[trigger] call_ensures(ResolvedFileCopy::source_path, (&made,), read) ==> read@ == source_path@,
        forall|read: &ResolvedPath|
            #[trigger] call_ensures(ResolvedFileCopy::target_path, (&made,), read) ==> read@ == target_path@,
        forall|read: &ContentFingerprint|
            #[trigger] call_ensures(ResolvedFileCopy::source_content_fingerprint, (&made,), read) ==> read@ == fingerprint@,
{
}

} // verus!
