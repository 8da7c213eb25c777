//! Words of the BCM2835 VideoCore mailbox.
//!
//! A mail word carries a channel in its low four bits and 28 bits of data
//! above them. The status register counts as empty while bit 30 is clear,
//! and as full while bit 31 is set.

use vstd::prelude::*;

verus! {

/// The channel a mail word addresses: its low four bits.
pub open spec fn mail_channel(word: u32) -> u32 {
    word % 16
}

/// The data a mail word carries: its upper 28 bits.
pub open spec fn mail_data(word: u32) -> u32 {
    word / 16
}

/// `word` with its data replaced by the low 28 bits of `data`.
pub open spec fn with_data(word: u32, data: u32) -> u32 {
    (mail_channel(word) + (data % 0x1000_0000) * 16) as u32
}

/// `word` with its data replaced by the upper 28 bits of `data`, which stay
/// where they are.
pub open spec fn with_data_in_place(word: u32, data: u32) -> u32 {
    (mail_channel(word) + (data / 16) * 16) as u32
}

/// `word` with its channel replaced by the low four bits of `channel`.
pub open spec fn with_channel(word: u32, channel: u8) -> u32 {
    (mail_data(word) * 16 + channel % 16) as u32
}

/// The mailbox counts as empty: bit 30, the second highest bit of the
/// status register, is not set.
pub open spec fn status_empty(status: u32) -> bool {
    (status / 0x4000_0000) % 2 == 0
}

/// Bit 31 of the status register: the mailbox cannot take more mail.
pub open spec fn status_full(status: u32) -> bool {
    status / 0x8000_0000 == 1
}

/// A mail word.
#[derive(Debug)]
pub struct Mail(u32);

/// A mail word, seen for its channel.
pub struct MailChannel(Mail);

/// A mail word, seen for its data.
pub struct MailData(Mail);

/// The VideoCore mailbox 0.
pub struct MailBox();

/// A value of the mailbox status register.
pub struct MailStatus(u32);

/// Something that can be sent through the mailbox.
pub trait Mailable {
    fn write_mail(&mut self) -> Mail;
}

impl View for Mail {
    type V = u32;

    closed spec fn view(&self) -> u32 {
        self.0
    }
}

impl View for MailChannel {
    type V = u32;

    closed spec fn view(&self) -> u32 {
        self.0.0
    }
}

impl View for MailData {
    type V = u32;

    closed spec fn view(&self) -> u32 {
        self.0.0
    }
}

impl View for MailStatus {
    type V = u32;

    closed spec fn view(&self) -> u32 {
        self.0
    }
}

impl MailStatus {
    /// Check if second to last bit is not filled: true exactly when bit 30
    /// is clear.
    pub fn is_empty(&self) -> (r: bool)
        ensures
            r == status_empty(self@),
    {
        let s = self.0;
        assert(((s & (1u32 << 30u32)) == 0) == ((s / 0x4000_0000) % 2 == 0)) by (bit_vector);
        (s & (1 << 30)) == 0
    }

    /// The mailbox cannot take more mail: bit 31, the highest, is set.
    pub fn is_full(&self) -> (r: bool)
        ensures
            r == status_full(self@),
    {
        let s = self.0;
        assert(((s & (1u32 << 31u32)) != 0) == (s / 0x8000_0000 == 1)) by (bit_vector);
        (s & (1 << 31)) != 0
    }
}

impl Mail {
    /// The mail word zero.
    pub fn new() -> (r: Mail)
        ensures
            r@ == 0,
    {
        Mail(0)
    }

    /// Works on the word's data.
    pub fn data(self) -> (r: MailData)
        ensures
            r@ == self@,
    {
        MailData(self)
    }

    /// Works on the word's channel.
    pub fn chan(self) -> (r: MailChannel)
        ensures
            r@ == self@,
    {
        MailChannel(self)
    }
}

impl MailData {
    /// Replaces the data with the low 28 bits of `data`.
    pub fn set(self, data: u32) -> (r: Mail)
        ensures
            r@ == with_data(self@, data),
    {
        let w = self.0.0;
        assert((w & 0b1111u32) + (data << 4u32) == w % 16 + (data % 0x1000_0000) * 16
            && w % 16 + (data % 0x1000_0000) * 16 <= u32::MAX) by (bit_vector);
        Mail((w & 0b1111) + (data << 4))
    }

    /// Replaces the data with the upper 28 bits of `data`, which stay in
    /// place: `data` is an address aligned to 16 bytes.
    pub fn set_noshift(self, data: u32) -> (r: Mail)
        ensures
            r@ == with_data_in_place(self@, data),
    {
        let w = self.0.0;
        assert((w & 0b1111u32) + (data & !0b1111u32) == w % 16 + (data / 16) * 16
            && w % 16 + (data / 16) * 16 <= u32::MAX) by (bit_vector);
        Mail((w & 0b1111) + (data & !(0b1111)))
    }

    /// The data the word carries.
    pub fn get(self) -> (r: u32)
        ensures
            r == mail_data(self@),
    {
        let w = self.0.0;
        assert(w >> 4u32 == w / 16) by (bit_vector);
        w >> 4
    }
}

impl MailChannel {
    /// Replaces the channel with the low four bits of `channel`.
    pub fn set(self, channel: u8) -> (r: Mail)
        ensures
            r@ == with_channel(self@, channel),
    {
        let w = self.0.0;
        let c = channel as u32;
        assert((w & !0b1111u32) + (c & 0b1111u32) == (w / 16) * 16 + c % 16
            && (w / 16) * 16 + c % 16 <= u32::MAX) by (bit_vector);
        Mail((w & !(0b1111)) + (c & 0b1111))
    }

    /// The channel the word addresses.
    pub fn get(self) -> (r: u8)
        ensures
            r == mail_channel(self@),
    {
        let w = self.0.0;
        assert(w & 0b1111u32 == w % 16) by (bit_vector);
        (w & 0b1111) as u8
    }
}

impl MailBox {
    /// The mailbox.
    pub fn new() -> (r: MailBox)
        ensures
            r == MailBox(),
    {
        MailBox()
    }
}

impl Default for Mail {
    fn default() -> (r: Self)
        ensures
            r@ == 0,
    {
        Self::new()
    }
}

impl Default for MailBox {
    fn default() -> (r: Self)
        ensures
            r == MailBox(),
    {
        Self::new()
    }
}

impl From<Mail> for u32 {
    fn from(value: Mail) -> (r: u32)
        ensures
            r == value@,
    {
        value.0
    }
}

impl vstd::std_specs::convert::FromSpecImpl<Mail> for u32 {
    open spec fn obeys_from_spec() -> bool {
        true
    }

    open spec fn from_spec(v: Mail) -> u32 {
        v@
    }
}

impl From<u32> for Mail {
    fn from(value: u32) -> (r: Mail)
        ensures
            r@ == value,
    {
        Mail(value)
    }
}

impl vstd::std_specs::convert::FromSpecImpl<u32> for Mail {
    open spec fn obeys_from_spec() -> bool {
        true
    }

    closed spec fn from_spec(v: u32) -> Mail {
        Mail(v)
    }
}

impl From<u32> for MailStatus {
    fn from(value: u32) -> (r: Self)
        ensures
            r@ == value,
    {
        Self(value)
    }
}

impl vstd::std_specs::convert::FromSpecImpl<u32> for MailStatus {
    open spec fn obeys_from_spec() -> bool {
        true
    }

    closed spec fn from_spec(v: u32) -> MailStatus {
        MailStatus(v)
    }
}

/// A mail word is determined by its channel and its data.
pub proof fn lemma_mail_word_parts(word: u32)
    ensures
        word == mail_data(word) * 16 + mail_channel(word),
        mail_channel(word) < 16,
        mail_data(word) < 0x1000_0000,
{
}

/// Data written with `MailData::set` reads back through `MailData::get`
/// (cut to the 28 bits a mail word carries), and the channel stays.
pub proof fn lemma_data_set_get(word: u32, data: u32)
    ensures
        mail_data(with_data(word, data)) == data % 0x1000_0000,
        mail_channel(with_data(word, data)) == mail_channel(word),
{
}

/// Data written in place keeps its upper 28 bits, and the channel stays.
pub proof fn lemma_data_in_place_set_get(word: u32, data: u32)
    ensures
        mail_data(with_data_in_place(word, data)) == data / 16,
        mail_channel(with_data_in_place(word, data)) == mail_channel(word),
{
}

/// A channel written with `MailChannel::set` reads back through
/// `MailChannel::get` (cut to four bits), and the data stays.
pub proof fn lemma_channel_set_get(word: u32, channel: u8)
    ensures
        mail_channel(with_channel(word, channel)) == channel % 16,
        mail_data(with_channel(word, channel)) == mail_data(word),
{
}

/// Setting the channel and the data commute: the order of the two writes
/// does not change the word.
pub proof fn lemma_data_channel_commute(word: u32, data: u32, channel: u8)
    ensures
        with_channel(with_data(word, data), channel) == with_data(with_channel(word, channel), data),
{
}

} // verus!
