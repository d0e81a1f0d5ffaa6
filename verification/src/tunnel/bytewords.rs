//! Certificates and the words by which two people compare them.
use base256::{Encode, PgpEncode};
use std::io::Read;
use vstd::prelude::*;

verus! {

/// How many bytes of a certificate's hash are spoken.
pub const COMPARE_HASH_BYTES: usize = 8;

/// The SHA-256 hash of `data`.
pub uninterp spec fn sha256(data: Seq<u8>) -> Seq<u8>;

/// The word of the PGP word list for `byte`: of the list of three-syllable
/// words if `three_syllables`, of the list of two-syllable words otherwise.
pub uninterp spec fn pgp_word(three_syllables: bool, byte: u8) -> Seq<char>;

/// The byte that `word` stands for in the PGP word list, whichever of the two
/// lists holds it.
pub uninterp spec fn pgp_byte(word: Seq<char>) -> u8;

/// Calls `ring::digest::digest` with `ring::digest::SHA256`.
///
/// Claimed of it: the digest is the SHA-256 hash of `data`, which is 32 bytes
/// long. It panics where the number of bits of the input does not fit in 64
/// bits.
#[verifier::external_body]
fn sha256_digest(data: &[u8]) -> (digest: Vec<u8>)
    requires
        data@.len() < 0x2000_0000_0000_0000,
    ensures
        digest@ == sha256(data@),
        digest@.len() == 32,
{
    ring::digest::digest(&ring::digest::SHA256, data).as_ref().to_vec()
}

/// Collects what `base256::Encode::encode` with `base256::PgpEncode` yields for
/// `bytes`.
///
/// Claimed of it: there is one word for each byte, at even positions out of the
/// list of two-syllable words, at odd positions out of the list of
/// three-syllable words. No word is in the lists twice, so a word tells its
/// byte; none is empty and none holds a space.
#[verifier::external_body]
fn pgp_encode(bytes: &[u8]) -> (words: Vec<&'static str>)
    ensures
        words@.len() == bytes@.len(),
        forall|i: int|
            0 <= i < bytes@.len() ==> (#[trigger] words@[i])@ == pgp_word(i % 2 == 1, bytes@[i]),
        forall|i: int| 0 <= i < bytes@.len() ==> pgp_byte((#[trigger] words@[i])@) == bytes@[i],
        forall|i: int| 0 <= i < bytes@.len() ==> is_word((#[trigger] words@[i])@),
{
    let encoded = Encode::<_, PgpEncode<_>>::encode(bytes.bytes());
    encoded.collect::<Result<Vec<&'static str>, std::io::Error>>().unwrap()
}

/// Whether `text` can stand among words that are separated by spaces.
pub open spec fn is_word(text: Seq<char>) -> bool {
    text.len() > 0 && !text.contains(' ')
}

/// The words one after the other, with one space before each that does not
/// come first.
pub open spec fn spoken(words: Seq<Seq<char>>) -> Seq<char>
    decreases words.len(),
{
    if words.len() == 0 {
        Seq::empty()
    } else {
        let before = spoken(words.drop_last());
        if before.len() == 0 {
            words.last()
        } else {
            before.push(' ') + words.last()
        }
    }
}

/// The pieces of `text` before, between and after its spaces, of which there is
/// one more than there are spaces.
pub open spec fn pieces(text: Seq<char>) -> Seq<Seq<char>>
    decreases text.len(),
{
    if text.len() == 0 {
        seq![Seq::empty()]
    } else {
        let before = pieces(text.drop_last());
        if text.last() == ' ' {
            before.push(Seq::empty())
        } else {
            before.drop_last().push(before.last().push(text.last()))
        }
    }
}

/// The part of a certificate's hash that is spoken.
pub open spec fn fingerprint(der: Seq<u8>) -> Seq<u8> {
    sha256(der).take(COMPARE_HASH_BYTES as int)
}

/// The words for `bytes`.
pub open spec fn words_for(bytes: Seq<u8>) -> Seq<Seq<char>> {
    Seq::new(bytes.len(), |i: int| pgp_word(i % 2 == 1, bytes[i]))
}

/// The words for a certificate, as they are read out.
pub open spec fn bytewords(der: Seq<u8>) -> Seq<char> {
    spoken(words_for(fingerprint(der)))
}

/// The bytes that are meant by words that were read out.
pub open spec fn heard(text: Seq<char>) -> Seq<u8> {
    pieces(text).map_values(|word: Seq<char>| pgp_byte(word))
}

/// Every text has a piece.
proof fn lemma_some_piece(text: Seq<char>)
    ensures
        pieces(text).len() > 0,
    decreases text.len(),
{
    if text.len() > 0 {
        lemma_some_piece(text.drop_last());
    }
}

/// A piece of text without a space only lengthens the last of the pieces
/// before it.
proof fn lemma_pieces_extend(before: Seq<char>, word: Seq<char>)
    requires
        !word.contains(' '),
    ensures
        pieces(before + word) == pieces(before).drop_last().push(pieces(before).last() + word),
    decreases word.len(),
{
    let p = pieces(before);
    lemma_some_piece(before);
    if word.len() == 0 {
        assert(before + word =~= before);
        assert(p.last() + word =~= p.last());
        assert(p.drop_last().push(p.last()) =~= p);
    } else {
        let shorter = word.drop_last();
        assert forall|i: int| 0 <= i < shorter.len() implies shorter[i] != ' ' by {
            assert(word.contains(word[i]));
        }
        lemma_pieces_extend(before, shorter);
        assert((before + word).drop_last() =~= before + shorter);
        assert(word.contains(word.last()));
        let q = pieces(before + shorter);
        assert(q.drop_last() =~= p.drop_last());
        assert((p.last() + shorter).push(word.last()) =~= p.last() + word);
    }
}

/// Words that are read out can be told apart again.
proof fn lemma_pieces_of_spoken(words: Seq<Seq<char>>)
    requires
        words.len() > 0,
        forall|i: int| 0 <= i < words.len() ==> is_word(#[trigger] words[i]),
    ensures
        pieces(spoken(words)) == words,
        spoken(words).len() > 0,
    decreases words.len(),
{
    let before = words.drop_last();
    let word = words.last();
    assert(is_word(words[words.len() - 1]));
    if before.len() == 0 {
        assert(spoken(before).len() == 0);
        lemma_pieces_extend(Seq::empty(), word);
        assert(Seq::<char>::empty() + word =~= word);
        assert(pieces(word) =~= words);
    } else {
        assert forall|i: int| 0 <= i < before.len() implies is_word(#[trigger] before[i]) by {
            assert(before[i] == words[i]);
        }
        lemma_pieces_of_spoken(before);
        let open = spoken(before).push(' ');
        assert(open.drop_last() =~= spoken(before));
        assert(pieces(open) == before.push(Seq::empty()));
        lemma_pieces_extend(open, word);
        assert(Seq::<char>::empty() + word =~= word);
        assert(pieces(open).drop_last() =~= before);
        assert(before.push(word) =~= words);
    }
}

/// Reading out one word more puts it behind the others, after a space, unless it is
/// the first that can be heard.
pub proof fn law_each_word_is_spoken_last(words: Seq<Seq<char>>, word: Seq<char>)
    ensures
        spoken(words.push(word)).subrange(
            spoken(words.push(word)).len() - word.len(),
            spoken(words.push(word)).len() as int,
        ) == word,
        spoken(words).len() == 0 ==> spoken(words.push(word)) == word,
        spoken(words).len() > 0 ==> spoken(words.push(word)) == spoken(words) + seq![' '] + word,
{
    assert(words.push(word).drop_last() =~= words);
    assert(spoken(words).push(' ') =~= spoken(words) + seq![' ']);
}

/// A word by itself is read out as it is; and reading out two lists of words one
/// after the other, with a space between, is reading out both as one list.
pub proof fn law_lists_are_spoken_one_after_the_other(
    first: Seq<Seq<char>>,
    second: Seq<Seq<char>>,
    word: Seq<char>,
)
    requires
        first.len() > 0,
        second.len() > 0,
        forall|i: int| 0 <= i < first.len() ==> (#[trigger] first[i]).len() > 0,
        forall|i: int| 0 <= i < second.len() ==> (#[trigger] second[i]).len() > 0,
    ensures
        spoken(Seq::empty()).len() == 0,
        spoken(seq![word]) == word,
        spoken(first).len() > 0,
        spoken(first + second) == spoken(first) + seq![' '] + spoken(second),
    decreases first.len() + second.len(),
{
    assert(seq![word].drop_last() =~= Seq::empty());
    let earlier = first.drop_last();
    assert(first[first.len() - 1].len() > 0);
    assert forall|i: int| 0 <= i < earlier.len() implies (#[trigger] earlier[i]).len() > 0 by {
        assert(earlier[i] == first[i]);
    }
    if earlier.len() > 0 {
        law_lists_are_spoken_one_after_the_other(earlier, seq![first.last()], word);
    }
    assert(spoken(first).len() > 0);
    let before = second.drop_last();
    let last = second.last();
    assert(second[second.len() - 1].len() > 0);
    assert((first + second).drop_last() =~= first + before);
    if before.len() == 0 {
        assert(first + before =~= first);
        assert(spoken(before).len() == 0);
        assert(spoken(first).push(' ') =~= spoken(first) + seq![' ']);
    } else {
        assert forall|i: int| 0 <= i < before.len() implies (#[trigger] before[i]).len() > 0 by {
            assert(before[i] == second[i]);
        }
        law_lists_are_spoken_one_after_the_other(first, before, word);
        assert(before[before.len() - 1].len() > 0);
        lemma_something_is_spoken(before);
        assert(spoken(first + before).push(' ') + last =~= spoken(first) + seq![' ']
            + spoken(second));
    }
}

/// Words that are not empty can be heard.
proof fn lemma_something_is_spoken(words: Seq<Seq<char>>)
    requires
        words.len() > 0,
        words.last().len() > 0,
    ensures
        spoken(words).len() > 0,
{
}

/// A space parts a text: its pieces are those before the space, followed by those
/// after it. A text without a space is in one piece.
pub proof fn law_a_space_parts_a_text(before: Seq<char>, after: Seq<char>)
    ensures
        pieces(before + seq![' '] + after) == pieces(before) + pieces(after),
        !before.contains(' ') ==> pieces(before) == seq![before],
    decreases after.len(),
{
    if !before.contains(' ') {
        lemma_pieces_extend(Seq::empty(), before);
        assert(Seq::<char>::empty() + before =~= before);
        assert(pieces(before) =~= seq![before]);
    }
    let text = before + seq![' '] + after;
    if after.len() == 0 {
        assert(text.drop_last() =~= before);
        assert(pieces(text) =~= pieces(before) + pieces(after));
    } else {
        let shorter = after.drop_last();
        law_a_space_parts_a_text(before, shorter);
        lemma_some_piece(shorter);
        assert(text.drop_last() =~= before + seq![' '] + shorter);
        assert(pieces(text) =~= pieces(before) + pieces(after));
    }
}

/// Words that are read out are heard as the same words in the same order, if none
/// is empty and none holds a space.
pub proof fn law_spoken_words_are_heard(words: Seq<Seq<char>>)
    requires
        words.len() > 0,
        forall|i: int|
            0 <= i < words.len() ==> (#[trigger] words[i]).len() > 0 && !words[i].contains(' '),
    ensures
        pieces(spoken(words)) == words,
        heard(spoken(words)).len() == words.len(),
        forall|i: int|
            0 <= i < words.len() ==> #[trigger] heard(spoken(words))[i] == pgp_byte(words[i]),
{
    assert forall|i: int| 0 <= i < words.len() implies is_word(#[trigger] words[i]) by {}
    lemma_pieces_of_spoken(words);
}

/// How a list of eight words is read out.
proof fn lemma_spoken_eight(words: Seq<Seq<char>>)
    requires
        words.len() == 8,
        forall|i: int| 0 <= i < words.len() ==> (#[trigger] words[i]).len() > 0,
    ensures
        spoken(words) == words[0] + seq![' '] + words[1] + seq![' '] + words[2] + seq![' ']
            + words[3] + seq![' '] + words[4] + seq![' '] + words[5] + seq![' '] + words[6]
            + seq![' '] + words[7],
{
    law_each_word_is_spoken_last(words.take(0), words[0]);
    assert(words.take(0).push(words[0]) =~= words.take(1));
    law_each_word_is_spoken_last(words.take(1), words[1]);
    assert(words.take(1).push(words[1]) =~= words.take(2));
    law_each_word_is_spoken_last(words.take(2), words[2]);
    assert(words.take(2).push(words[2]) =~= words.take(3));
    law_each_word_is_spoken_last(words.take(3), words[3]);
    assert(words.take(3).push(words[3]) =~= words.take(4));
    law_each_word_is_spoken_last(words.take(4), words[4]);
    assert(words.take(4).push(words[4]) =~= words.take(5));
    law_each_word_is_spoken_last(words.take(5), words[5]);
    assert(words.take(5).push(words[5]) =~= words.take(6));
    law_each_word_is_spoken_last(words.take(6), words[6]);
    assert(words.take(6).push(words[6]) =~= words.take(7));
    law_each_word_is_spoken_last(words.take(7), words[7]);
    assert(words.take(7).push(words[7]) =~= words);
}

/// Between words that are read out stand single spaces, and nowhere else.
proof fn lemma_spaces_of_spoken(words: Seq<Seq<char>>, i: int)
    requires
        words.len() > 0,
        forall|i: int| 0 <= i < words.len() ==> is_word(#[trigger] words[i]),
        0 <= i < spoken(words).len(),
        spoken(words)[i] == ' ',
    ensures
        0 < i < spoken(words).len() - 1,
        spoken(words)[i + 1] != ' ',
    decreases words.len(),
{
    let before = words.drop_last();
    let word = words.last();
    assert(is_word(words[words.len() - 1]));
    assert forall|k: int| 0 <= k < word.len() implies word[k] != ' ' by {
        assert(word.contains(word[k]));
    }
    if before.len() > 0 {
        assert forall|k: int| 0 <= k < before.len() implies is_word(#[trigger] before[k]) by {
            assert(before[k] == words[k]);
        }
        lemma_pieces_of_spoken(before);
        if i < spoken(before).len() {
            lemma_spaces_of_spoken(before, i);
        }
    }
}

/// Reads words out: one after the other, with single spaces between them.
pub fn speak(words: &[&str]) -> (text: String)
    ensures
        text@ == spoken(words@.map_values(|word: &str| word@)),
{
    let ghost list = words@.map_values(|word: &str| word@);
    let mut text = String::new();
    let mut next: usize = 0;
    assert(list.take(0) =~= Seq::empty());
    while next < words.len()
        invariant
            next <= words@.len(),
            list == words@.map_values(|word: &str| word@),
            text@ == spoken(list.take(next as int)),
        decreases words@.len() - next,
    {
        proof {
            reveal_strlit(" ");
            assert(list.take(next + 1).drop_last() =~= list.take(next as int));
            assert(text@ + " "@ =~= text@.push(' '));
        }
        if !text.as_str().is_empty() {
            text.append(" ");
        }
        text.append(words[next]);
        assert(text@ =~= spoken(list.take(next + 1)));
        next += 1;
    }
    assert(list.take(list.len() as int) =~= list);
    text
}

/// Whether `words` are the words for the first eight bytes of `hash`, one for each,
/// by turns out of the list of two-syllable words and that of three-syllable words,
/// with a space between two of them.
pub open spec fn spells(words: Seq<char>, hash: Seq<u8>) -> bool {
    words == pgp_word(false, hash[0]) + seq![' '] + pgp_word(true, hash[1]) + seq![' ']
        + pgp_word(false, hash[2]) + seq![' '] + pgp_word(true, hash[3]) + seq![' '] + pgp_word(
        false,
        hash[4],
    ) + seq![' '] + pgp_word(true, hash[5]) + seq![' '] + pgp_word(false, hash[6]) + seq![' ']
        + pgp_word(true, hash[7])
}

/// The words for a certificate whose hash is known: the first bytes of the
/// hash in the PGP word list.
pub fn hash_words(cert_hash: &[u8]) -> (words: String)
    requires
        cert_hash@.len() >= COMPARE_HASH_BYTES,
    ensures
        words@ == spoken(words_for(cert_hash@.take(COMPARE_HASH_BYTES as int))),
        pieces(words@) == words_for(cert_hash@.take(COMPARE_HASH_BYTES as int)),
        forall|i: int|
            0 <= i < COMPARE_HASH_BYTES ==> is_word(#[trigger] pieces(words@)[i]),
        heard(words@) == cert_hash@.take(COMPARE_HASH_BYTES as int),
        heard(words@) == cert_hash@.take(8),
        spells(words@, cert_hash@),
{
    let hash_truncated = vstd::slice::slice_subrange(cert_hash, 0, COMPARE_HASH_BYTES);
    let encoded = pgp_encode(hash_truncated);
    proof {
        let bytes = cert_hash@.take(COMPARE_HASH_BYTES as int);
        let list = encoded@.map_values(|word: &str| word@);
        assert(hash_truncated@ =~= bytes);
        assert(list =~= words_for(bytes));
        assert forall|i: int| 0 <= i < list.len() implies is_word(#[trigger] list[i]) by {
            assert(is_word(encoded@[i]@));
        }
        lemma_pieces_of_spoken(list);
        assert forall|i: int| 0 <= i < list.len() implies pgp_byte(#[trigger] list[i])
            == bytes[i] by {
            assert(pgp_byte(encoded@[i]@) == bytes[i]);
        }
        assert(heard(spoken(list)) =~= bytes);
        assert forall|i: int| 0 <= i < list.len() implies (#[trigger] list[i]).len() > 0 by {
            assert(is_word(list[i]));
        }
        lemma_spoken_eight(list);
    }
    speak(encoded.as_slice())
}

/// A certificate in DER form.
#[derive(Debug)]
pub struct CertificateDer {
    pub der: Vec<u8>,
}

/// Whether `words` are the words for the certificate `der`: they stand between
/// the spaces of the text, none of them is empty, and whoever knows the PGP word
/// list hears the certificate's fingerprint in them.
pub open spec fn speaks_for(words: Seq<char>, der: Seq<u8>) -> bool {
    &&& words == bytewords(der)
    &&& pieces(words) == words_for(fingerprint(der))
    &&& pieces(words).len() == COMPARE_HASH_BYTES
    &&& forall|i: int| 0 <= i < COMPARE_HASH_BYTES ==> is_word(#[trigger] pieces(words)[i])
    &&& heard(words) == fingerprint(der)
    &&& fingerprint(der).len() == COMPARE_HASH_BYTES
}

/// Something that is compared by the words for a certificate.
pub trait CertificateByteWords {
    /// The certificate in DER form.
    spec fn spec_der(&self) -> Seq<u8>;

    /// The words for the certificate: the first bytes of its hash in the PGP
    /// word list, separated by spaces.
    fn get_bytewords(&self) -> (words: String)
        requires
            self.spec_der().len() < 0x2000_0000_0000_0000,
        ensures
            speaks_for(words@, self.spec_der()),
            heard(words@) == sha256(self.spec_der()).take(8),
            spells(words@, sha256(self.spec_der())),
    ;
}

impl CertificateByteWords for CertificateDer {
    open spec fn spec_der(&self) -> Seq<u8> {
        self.der@
    }

    fn get_bytewords(&self) -> (words: String)
        ensures
            heard(words@) == sha256(self.der@).take(8),
            spells(words@, sha256(self.der@)),
    {
        let cert_hash = sha256_digest(self.der.as_slice());
        hash_words(cert_hash.as_slice())
    }
}

/// The words for two certificates are the same if and only if the spoken parts
/// of their hashes are: comparing the words compares exactly these bytes.
pub proof fn law_words_tell_fingerprints(
    words_a: Seq<char>,
    der_a: Seq<u8>,
    words_b: Seq<char>,
    der_b: Seq<u8>,
)
    requires
        speaks_for(words_a, der_a),
        speaks_for(words_b, der_b),
    ensures
        words_a == words_b <==> fingerprint(der_a) == fingerprint(der_b),
        words_a == words_b <==> sha256(der_a).take(8) == sha256(der_b).take(8),
{
}

/// In the words for a certificate, whatever it is, the first eight bytes of the
/// SHA-256 hash of the whole certificate are heard; and the words are those of the
/// PGP word list for these bytes, by turns of two and of three syllables, with a
/// single space between two of them.
pub proof fn law_words_tell_the_hash_of_the_whole_certificate(words: Seq<char>, der: Seq<u8>)
    requires
        speaks_for(words, der),
    ensures
        heard(words) == sha256(der).take(8),
        pieces(words).len() == 8,
        forall|i: int|
            0 <= i < 8 ==> #[trigger] pieces(words)[i] == pgp_word(
                i % 2 == 1,
                sha256(der).take(8)[i],
            ),
        forall|i: int|
            0 <= i < 8 ==> pgp_byte(#[trigger] pieces(words)[i]) == sha256(der).take(8)[i],
        ({
            let hash = sha256(der).take(8);
            words == pgp_word(false, hash[0]) + seq![' '] + pgp_word(true, hash[1]) + seq![' ']
                + pgp_word(false, hash[2]) + seq![' '] + pgp_word(true, hash[3]) + seq![' ']
                + pgp_word(false, hash[4]) + seq![' '] + pgp_word(true, hash[5]) + seq![' ']
                + pgp_word(false, hash[6]) + seq![' '] + pgp_word(true, hash[7])
        }),
{
    let list = words_for(fingerprint(der));
    assert forall|i: int| 0 <= i < 8 implies pgp_byte(#[trigger] pieces(words)[i]) == sha256(
        der,
    ).take(8)[i] by {
        assert(heard(words)[i] == pgp_byte(pieces(words)[i]));
    }
    assert forall|i: int| 0 <= i < list.len() implies (#[trigger] list[i]).len() > 0 by {
        assert(is_word(pieces(words)[i]));
    }
    lemma_spoken_eight(list);
}

/// The words for a certificate are the words for its own bytes, all of them.
pub proof fn law_words_are_for_the_certificate_itself(certificate: CertificateDer)
    ensures
        certificate.spec_der() == certificate.der@,
{
}

/// The words for a certificate are as many as the bytes that are compared, with a
/// single space between two of them and none before, behind or besides.
pub proof fn law_one_word_for_each_byte(words: Seq<char>, der: Seq<u8>)
    requires
        speaks_for(words, der),
    ensures
        pieces(words).len() == COMPARE_HASH_BYTES,
        forall|i: int| 0 <= i < COMPARE_HASH_BYTES ==> is_word(#[trigger] pieces(words)[i]),
        forall|i: int|
            0 <= i < words.len() && #[trigger] words[i] == ' ' ==> {
                &&& 0 < i < words.len() - 1
                &&& words[i + 1] != ' '
            },
{
    let list = words_for(fingerprint(der));
    assert forall|i: int| 0 <= i < words.len() && #[trigger] words[i] == ' ' implies {
        &&& 0 < i < words.len() - 1
        &&& words[i + 1] != ' '
    } by {
        assert forall|k: int| 0 <= k < list.len() implies is_word(#[trigger] list[k]) by {
            assert(is_word(pieces(words)[k]));
        }
        lemma_spaces_of_spoken(list, i);
    }
}

} // verus!
