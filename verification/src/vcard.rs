//! Contacts and their rendering as VCard 2.1 blocks.

use vstd::prelude::*;

verus! {

/// The six attributes of a contact, as plain text.
#[derive(Clone, Debug, PartialEq, Eq)]
pub struct Contact {
    pub first_name: String,
    pub last_name: String,
    pub tel: String,
    pub mobile: String,
    pub email: String,
    pub note: String,
}

/// The mathematical value of a [`Contact`].
pub struct ContactText {
    pub first_name: Seq<char>,
    pub last_name: Seq<char>,
    pub tel: Seq<char>,
    pub mobile: Seq<char>,
    pub email: Seq<char>,
    pub note: Seq<char>,
}

impl View for Contact {
    type V = ContactText;

    open spec fn view(&self) -> ContactText {
        ContactText {
            first_name: self.first_name@,
            last_name: self.last_name@,
            tel: self.tel@,
            mobile: self.mobile@,
            email: self.email@,
            note: self.note@,
        }
    }
}

/// The field of `row` at position `i`, or the empty text where the row
/// has no such position.
pub open spec fn field_or_empty(row: Seq<Seq<char>>, i: int) -> Seq<char> {
    if 0 <= i < row.len() {
        row[i]
    } else {
        Seq::<char>::empty()
    }
}

/// The contact that a record stands for: its first six fields by position,
/// first name, last name, home phone, mobile phone, email address, note.
pub open spec fn contact_of_row(row: Seq<Seq<char>>) -> ContactText {
    ContactText {
        first_name: field_or_empty(row, 0),
        last_name: field_or_empty(row, 1),
        tel: field_or_empty(row, 2),
        mobile: field_or_empty(row, 3),
        email: field_or_empty(row, 4),
        note: field_or_empty(row, 5),
    }
}

/// One line of a card: the text, then a line feed.
pub open spec fn card_line(text: Seq<char>) -> Seq<char> {
    text.push('\n')
}

/// The VCard 2.1 block of a contact: ten lines, the values put in as they
/// are.
pub open spec fn card_text(c: ContactText) -> Seq<char> {
    card_line("BEGIN:VCARD"@) + card_line("VERSION:2.1"@) + card_line(
        "N:"@ + c.last_name + ";"@ + c.first_name,
    ) + card_line("FN:"@ + c.first_name + " "@ + c.last_name) + card_line(
        "EMAIL;PREF;INTERNET:"@ + c.email,
    ) + card_line("TEL;HOME;VOICE:"@ + c.tel) + card_line("TEL;HOME;VOICE:"@ + c.mobile)
        + card_line("NOTE:"@ + c.note) + card_line("REV:1"@) + card_line("END:VCARD"@)
}

/// The card of the contact that a record stands for.
pub open spec fn card_of_row(row: Seq<Seq<char>>) -> Seq<char> {
    card_text(contact_of_row(row))
}

/// Appends `text` and a line feed to `out`.
fn put_line(out: &mut String, text: &str)
    ensures
        final(out)@ == old(out)@ + card_line(text@),
{
    out.append(text);
    out.push('\n');
}

/// Appends the line made of `tag` and `value` to `out`.
fn put_tagged(out: &mut String, tag: &str, value: &str)
    ensures
        final(out)@ == old(out)@ + card_line(tag@ + value@),
{
    out.append(tag);
    out.append(value);
    out.push('\n');
}

/// Appends the line made of `tag`, `left`, `between` and `right` to `out`.
fn put_pair(out: &mut String, tag: &str, left: &str, between: &str, right: &str)
    ensures
        final(out)@ == old(out)@ + card_line(tag@ + left@ + between@ + right@),
{
    out.append(tag);
    out.append(left);
    out.append(between);
    out.append(right);
    out.push('\n');
}

/// Renders one contact as a VCard 2.1 block.
pub fn make_vcard(
    first_name: &str,
    last_name: &str,
    tel: &str,
    mobile: &str,
    email: &str,
    note: &str,
) -> (vcard: String)
    ensures
        vcard@ == card_text(
            (ContactText {
                first_name: first_name@,
                last_name: last_name@,
                tel: tel@,
                mobile: mobile@,
                email: email@,
                note: note@,
            }),
        ),
{
    let mut vcard = String::new();
    put_line(&mut vcard, "BEGIN:VCARD");
    put_line(&mut vcard, "VERSION:2.1");
    put_pair(&mut vcard, "N:", last_name, ";", first_name);
    put_pair(&mut vcard, "FN:", first_name, " ", last_name);
    put_tagged(&mut vcard, "EMAIL;PREF;INTERNET:", email);
    put_tagged(&mut vcard, "TEL;HOME;VOICE:", tel);
    put_tagged(&mut vcard, "TEL;HOME;VOICE:", mobile);
    put_tagged(&mut vcard, "NOTE:", note);
    put_line(&mut vcard, "REV:1");
    put_line(&mut vcard, "END:VCARD");
    vcard
}

/// The field of `row` at position `i`, or the empty text.
fn field_at(row: &[String], i: usize) -> (field: &str)
    ensures
        field@ == field_or_empty(row.deep_view(), i as int),
{
    if i < row.len() {
        row[i].as_str()
    } else {
        proof {
            reveal_strlit("");
        }
        ""
    }
}

impl Contact {
    /// Maps a record onto a contact by position. A field that the record
    /// lacks is empty; fields past the sixth are left out.
    pub fn from_fields(row: &[String]) -> (contact: Contact)
        ensures
            contact@ == contact_of_row(row.deep_view()),
    {
        Contact {
            first_name: String::from_str(field_at(row, 0)),
            last_name: String::from_str(field_at(row, 1)),
            tel: String::from_str(field_at(row, 2)),
            mobile: String::from_str(field_at(row, 3)),
            email: String::from_str(field_at(row, 4)),
            note: String::from_str(field_at(row, 5)),
        }
    }

    /// Renders the contact as a VCard 2.1 block.
    pub fn to_vcard(&self) -> (vcard: String)
        ensures
            vcard@ == card_text(self@),
    {
        make_vcard(
            self.first_name.as_str(),
            self.last_name.as_str(),
            self.tel.as_str(),
            self.mobile.as_str(),
            self.email.as_str(),
            self.note.as_str(),
        )
    }
}

/// The card of one record: its fields mapped onto a contact by position,
/// and the contact rendered.
pub fn extract_vcard_data(vcard_data: &[String]) -> (vcard: String)
    ensures
        vcard@ == card_of_row(vcard_data.deep_view()),
{
    Contact::from_fields(vcard_data).to_vcard()
}

/// Fields past the sixth have no part in a record's card: the card is that
/// of the first six fields alone.
pub proof fn lemma_extra_fields_ignored(row: Seq<Seq<char>>)
    requires
        row.len() >= 6,
    ensures
        card_of_row(row) == card_of_row(row.take(6)),
        card_of_row(row) == card_text(
            (ContactText {
                first_name: row[0],
                last_name: row[1],
                tel: row[2],
                mobile: row[3],
                email: row[4],
                note: row[5],
            }),
        ),
{
}

/// A record with fewer than six fields has the card of the record filled
/// up to six with empty fields.
pub proof fn lemma_missing_fields_empty(row: Seq<Seq<char>>)
    requires
        row.len() < 6,
    ensures
        card_of_row(row) == card_of_row(
            row + Seq::new((6 - row.len()) as nat, |i: int| Seq::<char>::empty()),
        ),
        forall|i: int| row.len() <= i < 6 ==> field_or_empty(row, i) == Seq::<char>::empty(),
{
}

} // verus!
