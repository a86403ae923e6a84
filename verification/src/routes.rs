//! The decision behind each route of the registry's HTTP surface. Read
//! routes render a page value; write routes parse the submitted form,
//! apply the table operation, and answer with a redirect target, a
//! one-shot flash message, and the file write the caller must perform.

use vstd::prelude::*;
use vstd::slice::slice_to_vec;
use vstd::string::StringExecFns;

use crate::form::{
    extract_id, extract_new_hero, fantasy_field, fields_decodable, fields_match, file_matches,
    first_file_spec, id_field, id_of, photo_field, real_field, strength_field, ExtractError,
    FileSave,
};
use crate::models::{heroes_view, new_fields, Hero};
use crate::multipart::{all_names_allowed, allowed_view, parse_form, spec_parse_body};
use crate::store::{contains_id, row_index, HeroTable};

verus! {

/// Whether a write ended well; decides how the flash message is shown.
#[derive(Debug, PartialEq, Eq, Structural, Clone, Copy)]
pub enum FlashKind {
    Success,
    Error,
}

/// The rendered list view: every hero and a status message.
pub struct ListPage {
    pub heroes: Vec<Hero>,
    pub message: String,
}

/// The rendered create form with the carried-over flash message, if any.
pub struct NewPage {
    pub flash: Option<String>,
}

/// The rendered edit form, pre-populated where the record was found.
pub struct UpdatePage {
    pub hero: Option<Hero>,
}

/// What a write route answers: a redirect target, a one-shot flash
/// message, and the file write the caller must perform before showing it.
pub struct WriteResponse {
    pub redirect_to: String,
    pub kind: FlashKind,
    pub message: String,
    pub save: Option<FileSave>,
}

/// The field names the create form may carry.
pub open spec fn insert_allowed_names() -> Seq<Seq<u8>> {
    seq![photo_field(), fantasy_field(), real_field(), strength_field()]
}

/// The field names the update form may carry: the create fields and the
/// id of the record to update.
pub open spec fn update_allowed_names() -> Seq<Seq<u8>> {
    seq![photo_field(), id_field(), fantasy_field(), real_field(), strength_field()]
}

fn insert_allowed_vec() -> (r: Vec<Vec<u8>>)
    ensures
        allowed_view(r@) == insert_allowed_names(),
{
    let mut v: Vec<Vec<u8>> = Vec::new();
    v.push(slice_to_vec("spotted_photo".as_bytes()));
    v.push(slice_to_vec("fantasy_name".as_bytes()));
    v.push(slice_to_vec("real_name".as_bytes()));
    v.push(slice_to_vec("strength_level".as_bytes()));
    proof {
        assert(allowed_view(v@) =~= insert_allowed_names());
    }
    v
}

fn update_allowed_vec() -> (r: Vec<Vec<u8>>)
    ensures
        allowed_view(r@) == update_allowed_names(),
{
    let mut v: Vec<Vec<u8>> = Vec::new();
    v.push(slice_to_vec("spotted_photo".as_bytes()));
    v.push(slice_to_vec("id".as_bytes()));
    v.push(slice_to_vec("fantasy_name".as_bytes()));
    v.push(slice_to_vec("real_name".as_bytes()));
    v.push(slice_to_vec("strength_level".as_bytes()));
    proof {
        assert(allowed_view(v@) =~= update_allowed_names());
    }
    v
}

/// The list route: every hero in the table, in insertion order, and the
/// carried-over flash message where one exists, else the standing
/// listing message.
pub fn list(table: &HeroTable, flash: Option<String>) -> (r: ListPage)
    ensures
        heroes_view(r.heroes@) == table@,
        r.message@ == (match flash {
            Some(m) => m@,
            None => "Listing heroes..."@,
        }),
{
    let message = match flash {
        Some(m) => m,
        None => String::from_str("Listing heroes..."),
    };
    ListPage { heroes: table.list(), message }
}

/// The create-form route: the form with the carried-over flash, if any.
pub fn new(flash: Option<String>) -> (r: NewPage)
    ensures
        r.flash == flash,
{
    NewPage { flash }
}

/// The edit-form route: the record with the id `id`, where it exists.
pub fn update(table: &HeroTable, id: i32) -> (r: UpdatePage)
    requires
        table.wf(),
    ensures
        match r.hero {
            Some(h) => contains_id(table@, id as int) && h@ == table@[row_index(
                table@,
                id as int,
            )],
            None => !contains_id(table@, id as int),
        },
{
    UpdatePage {
        hero: match table.get(id) {
            Some(h) => Some(h.clone()),
            None => None,
        },
    }
}

/// The create route. A malformed body, a disallowed field, a missing
/// photo or an undecodable field is turned away with an error flash and
/// an untouched table; otherwise the extracted field set is stored as a
/// fresh row, the uploaded photo is handed back to be written, and the
/// answer redirects home with a success flash.
pub fn insert(table: &mut HeroTable, body: &[u8], boundary: &[u8]) -> (r: WriteResponse)
    requires
        old(table).wf(),
        old(table).spec_next_id() < i32::MAX,
    ensures
        final(table).wf(),
        r.kind == FlashKind::Error ==> final(table)@ == old(table)@ && r.save is None
            && r.redirect_to@ == "/new"@,
        ({
            let parsed = spec_parse_body(body@, boundary@);
            match parsed {
                None => r.kind == FlashKind::Error && r.message@
                    == "Houston, We have problems parsing our form..."@,
                Some(ps) => if !all_names_allowed(ps, insert_allowed_names()) {
                    r.kind == FlashKind::Error && r.message@
                        == "Houston, We have problems parsing our form..."@
                } else if first_file_spec(ps, photo_field()) is None {
                    r.kind == FlashKind::Error && r.message@
                        == "A photo of the hero is required."@
                } else if !fields_decodable(ps) {
                    r.kind == FlashKind::Error && r.message@
                        == "The form fields could not be read."@
                } else {
                    &&& r.kind == FlashKind::Success
                    &&& r.redirect_to@ == "/"@
                    &&& r.message@ == "Success! We got a new Hero on our database!"@
                    &&& final(table)@.len() == old(table)@.len() + 1
                    &&& final(table)@ == old(table)@.push(final(table)@.last())
                    &&& final(table)@.last().id == old(table).spec_next_id()
                    &&& (r.save matches Some(f) && file_matches(ps, f@))
                    &&& fields_match(ps, new_fields(final(table)@.last()))
                    &&& (r.save matches Some(f) ==> final(table)@.last().spotted_photo
                        == f@.path)
                },
            }
        }),
{
    let allowed = insert_allowed_vec();
    let parts = match parse_form(body, boundary, &allowed) {
        Err(_) => {
            return WriteResponse {
                redirect_to: String::from_str("/new"),
                kind: FlashKind::Error,
                message: String::from_str("Houston, We have problems parsing our form..."),
                save: None,
            };
        },
        Ok(ps) => ps,
    };
    match extract_new_hero(&parts) {
        Err(ExtractError::MissingPhoto) => WriteResponse {
            redirect_to: String::from_str("/new"),
            kind: FlashKind::Error,
            message: String::from_str("A photo of the hero is required."),
            save: None,
        },
        Err(ExtractError::Undecodable) => WriteResponse {
            redirect_to: String::from_str("/new"),
            kind: FlashKind::Error,
            message: String::from_str("The form fields could not be read."),
            save: None,
        },
        Ok((h, f)) => {
            let ghost hv = h@;
            let id = table.create(h);
            proof {
                assert(new_fields(table@.last()) == hv);
            }
            WriteResponse {
                redirect_to: String::from_str("/"),
                kind: FlashKind::Success,
                message: String::from_str("Success! We got a new Hero on our database!"),
                save: Some(f),
            }
        },
    }
}

/// The update route. The target id is read from the submitted form; a
/// malformed body, a disallowed field, a missing or unparsable id, a
/// missing photo or an undecodable field is turned away with an error
/// flash and an untouched table. Otherwise the photo is handed back to
/// be written and the answer redirects home with a success flash; the
/// row with the target id, where one exists, is replaced by the
/// extracted field set, and every other row is left exactly as it was.
pub fn process_update(table: &mut HeroTable, body: &[u8], boundary: &[u8]) -> (r: WriteResponse)
    requires
        old(table).wf(),
    ensures
        final(table).wf(),
        r.kind == FlashKind::Error ==> final(table)@ == old(table)@ && r.save is None
            && r.redirect_to@ == "/new"@,
        ({
            let parsed = spec_parse_body(body@, boundary@);
            match parsed {
                None => r.kind == FlashKind::Error && r.message@
                    == "Houston, We have problems parsing our form..."@,
                Some(ps) => if !all_names_allowed(ps, update_allowed_names()) {
                    r.kind == FlashKind::Error && r.message@
                        == "Houston, We have problems parsing our form..."@
                } else {
                    match id_of(ps) {
                        None => r.kind == FlashKind::Error && r.message@
                            == "The id of the hero is required."@,
                        Some(idv) => if first_file_spec(ps, photo_field()) is None {
                            r.kind == FlashKind::Error && r.message@
                                == "A photo of the hero is required."@
                        } else if !fields_decodable(ps) {
                            r.kind == FlashKind::Error && r.message@
                                == "The form fields could not be read."@
                        } else {
                            &&& r.kind == FlashKind::Success
                            &&& r.redirect_to@ == "/"@
                            &&& r.message@ == "Success! We got a new Hero on our database!"@
                            &&& (r.save matches Some(f) && file_matches(ps, f@))
                            &&& final(table)@.len() == old(table)@.len()
                            &&& (forall|j: int|
                                0 <= j < old(table)@.len() && old(table)@[j].id != idv
                                    ==> final(table)@[j] == old(table)@[j])
                            &&& (contains_id(old(table)@, idv) ==> {
                                let w = row_index(old(table)@, idv);
                                &&& final(table)@ == old(table)@.update(w, final(table)@[w])
                                &&& final(table)@[w].id == idv
                                &&& fields_match(ps, new_fields(final(table)@[w]))
                                &&& (r.save matches Some(f) ==> final(table)@[w].spotted_photo
                                    == f@.path)
                            })
                            &&& (!contains_id(old(table)@, idv) ==> final(table)@ == old(
                                table,
                            )@)
                        },
                    }
                },
            }
        }),
{
    let allowed = update_allowed_vec();
    let parts = match parse_form(body, boundary, &allowed) {
        Err(_) => {
            return WriteResponse {
                redirect_to: String::from_str("/new"),
                kind: FlashKind::Error,
                message: String::from_str("Houston, We have problems parsing our form..."),
                save: None,
            };
        },
        Ok(ps) => ps,
    };
    let id = match extract_id(&parts) {
        Some(id) => id,
        None => {
            return WriteResponse {
                redirect_to: String::from_str("/new"),
                kind: FlashKind::Error,
                message: String::from_str("The id of the hero is required."),
                save: None,
            };
        },
    };
    match extract_new_hero(&parts) {
        Err(ExtractError::MissingPhoto) => WriteResponse {
            redirect_to: String::from_str("/new"),
            kind: FlashKind::Error,
            message: String::from_str("A photo of the hero is required."),
            save: None,
        },
        Err(ExtractError::Undecodable) => WriteResponse {
            redirect_to: String::from_str("/new"),
            kind: FlashKind::Error,
            message: String::from_str("The form fields could not be read."),
            save: None,
        },
        Ok((h, f)) => {
            let ghost hv = h@;
            table.update(id, h);
            WriteResponse {
                redirect_to: String::from_str("/"),
                kind: FlashKind::Success,
                message: String::from_str("Success! We got a new Hero on our database!"),
                save: Some(f),
            }
        },
    }
}

/// The delete route: remove the record with the id `id`, where one
/// exists, and redirect home with a success flash. Afterwards no record
/// holds that id.
pub fn delete(table: &mut HeroTable, id: i32) -> (r: WriteResponse)
    requires
        old(table).wf(),
    ensures
        final(table).wf(),
        !contains_id(final(table)@, id as int),
        contains_id(old(table)@, id as int) ==> final(table)@ == old(table)@.remove(
            row_index(old(table)@, id as int),
        ),
        !contains_id(old(table)@, id as int) ==> final(table)@ == old(table)@,
        r.kind == FlashKind::Success,
        r.redirect_to@ == "/"@,
        r.message@ == "Yey! The hero was deleted."@,
        r.save is None,
{
    table.delete(id);
    WriteResponse {
        redirect_to: String::from_str("/"),
        kind: FlashKind::Success,
        message: String::from_str("Yey! The hero was deleted."),
        save: None,
    }
}

} // verus!
