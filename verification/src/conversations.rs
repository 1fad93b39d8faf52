//! The conversation store.
//!
//! One JSON document per conversation, beside a shared `index.json` holding a
//! JSON array of the filenames that are visible to listing. The store itself
//! is stateless: every operation re-reads the index, decides, and writes. The
//! host process owns the actual files; each operation here takes the text the
//! host read and returns what the host must write, so the decisions are
//! verified while the I/O stays outside.

use crate::codec::{
    decode_document, decode_index, decoded_index, encode_document, encode_index, error_message,
    parsed_document, printed_document, printed_index,
};
use crate::order::{sort_desc, sorted_desc, views};
use vstd::prelude::*;

verus! {

/// Errors surfaced by the conversation store, each carrying a human-readable
/// message.
#[derive(Debug)]
pub enum ConversationError {
    /// A file or the index was missing, unreadable, or malformed JSON.
    ReadError(String),
    /// A file or the index could not be created or overwritten.
    WriteError(String),
    /// Reserved for deletion failures; no current operation raises it.
    DeleteError(String),
}

impl ConversationError {
    /// The message carried by each variant.
    pub open spec fn message_spec(&self) -> Seq<char> {
        match self {
            ConversationError::ReadError(m) => m@,
            ConversationError::WriteError(m) => m@,
            ConversationError::DeleteError(m) => m@,
        }
    }

    /// The human-readable message carried by this error.
    pub fn message(&self) -> (r: &String)
        ensures
            r@ == self.message_spec(),
    {
        match self {
            ConversationError::ReadError(m) => m,
            ConversationError::WriteError(m) => m,
            ConversationError::DeleteError(m) => m,
        }
    }
}

/// One conversation: its filename and its document, an opaque JSON value the
/// store never interprets.
#[derive(Debug)]
pub struct Conversation {
    pub filename: String,
    pub content: serde_json::Value,
}

/// What `save_conversation` decides. The host writes `content_text` to the
/// conversation file first; only if that write succeeds does it act on
/// `index_update`.
#[derive(Debug)]
pub struct SavePlan {
    /// The pretty-printed document for the conversation file; it parses back
    /// to the document that was saved.
    pub content_text: String,
    /// `Ok(Some(text))`: persist `text` as the new index. `Ok(None)`: the
    /// filename is already indexed and the index stays untouched. `Err(_)`:
    /// the index could not be decoded; the error is surfaced, but only after
    /// the content file was written.
    pub index_update: Result<Option<String>, ConversationError>,
}

/// What `clear_all_conversations` decides: which files to remove, best
/// effort, and the empty index that replaces the old one unconditionally.
#[derive(Debug)]
pub struct ClearPlan {
    /// Filenames whose files should be removed, newest first; per-file
    /// removal failures are swallowed.
    pub filenames: Vec<String>,
    /// The new index content: an empty array.
    pub new_index_text: String,
}

/// The index after a save: the filename is appended only when it was not
/// already present, so saving never duplicates and never reorders.
pub open spec fn saved_index(items: Seq<Seq<char>>, filename: Seq<char>) -> Seq<Seq<char>> {
    if items.contains(filename) {
        items
    } else {
        items.push(filename)
    }
}

/// Keeping an entry while deleting `filename`: the entry differs from it.
pub open spec fn keeps(filename: Seq<char>) -> spec_fn(Seq<char>) -> bool {
    |entry: Seq<char>| entry != filename
}

/// The index after a delete: every entry equal to the filename is removed,
/// duplicates included, and the others keep their order.
pub open spec fn deleted_index(items: Seq<Seq<char>>, filename: Seq<char>) -> Seq<Seq<char>> {
    items.filter(keeps(filename))
}

/// The conversation store's decision core. It fixes the on-disk layout (the
/// directory and index file names) and decides every operation; the host
/// performs the reads and writes around it.
pub struct ConversationManager {
    /// Directory under the host's application-data directory that holds the
    /// conversation files and the index.
    pub dir_name: String,
    /// Name of the index file inside that directory.
    pub index_file_name: String,
}

impl ConversationManager {
    /// A store over `<app_data_dir>/chat_conversations`, indexed by
    /// `index.json` in that directory.
    pub fn new() -> (r: Self)
        ensures
            r.dir_name@ == "chat_conversations"@,
            r.index_file_name@ == "index.json"@,
    {
        ConversationManager {
            dir_name: "chat_conversations".to_owned(),
            index_file_name: "index.json".to_owned(),
        }
    }

    /// Decides initialization of the index file: seed an empty index when the
    /// file does not exist yet, and leave an existing one untouched, so that
    /// constructing the store again never overwrites a non-empty index.
    pub fn init_index_update(&self, index_exists: bool) -> (r: Option<String>)
        ensures
            index_exists <==> r is None,
            match r {
                Some(t) => decoded_index(t@) == Some(Seq::<Seq<char>>::empty()),
                None => true,
            },
    {
        if index_exists {
            None
        } else {
            let empty: Vec<String> = Vec::new();
            proof {
                assert(views(empty@) =~= Seq::<Seq<char>>::empty());
            }
            Some(encode_index(&empty))
        }
    }

    /// Decides `list`: given the text read from the index file, the filenames
    /// it holds, sorted newest first (descending lexicographic order), or a
    /// `ReadError` exactly when the text is not a JSON array of strings.
    pub fn get_index(&self, index_text: &str) -> (r: Result<Vec<String>, ConversationError>)
        ensures
            match decoded_index(index_text@) {
                Some(items) => match r {
                    Ok(listing) => views(listing@).to_multiset() == items.to_multiset()
                        && sorted_desc(views(listing@)),
                    Err(_) => false,
                },
                None => r matches Err(ConversationError::ReadError(_)),
            },
    {
        match decode_index(index_text) {
            Ok(entries) => Ok(sort_desc(entries)),
            Err(e) => Err(ConversationError::ReadError(error_message(&e))),
        }
    }

    /// Decides `get`: given the filename and the text read from its file, the
    /// conversation record holding the parsed document, or a `ReadError`
    /// exactly when the text is not a JSON document. The index is not
    /// consulted: an unindexed file can be fetched directly.
    pub fn get_conversation(&self, filename: &str, file_text: &str) -> (r: Result<
        Conversation,
        ConversationError,
    >)
        ensures
            r is Ok <==> parsed_document(file_text@) is Some,
            match r {
                Ok(c) => c.filename@ == filename@ && parsed_document(file_text@) == Some(
                    c.content,
                ),
                Err(e) => e matches ConversationError::ReadError(_),
            },
    {
        match decode_document(file_text) {
            Ok(content) => Ok(Conversation { filename: filename.to_owned(), content }),
            Err(e) => Err(ConversationError::ReadError(error_message(&e))),
        }
    }

    /// Decides `save`: the document text for the conversation file, which
    /// parses back to the given document and is written unconditionally, and
    /// the index update that follows a successful file write — append the
    /// filename only when it is not indexed yet. Fails with a `WriteError`,
    /// before anything is written, only when the printed document would not
    /// parse back (nesting deeper than the parser accepts); the index is then
    /// untouched.
    pub fn save_conversation(
        &self,
        filename: &str,
        content: &serde_json::Value,
        index_text: &str,
    ) -> (r: Result<SavePlan, ConversationError>)
        ensures
            r is Err <==> parsed_document(printed_document(*content)) is None,
            match r {
                Ok(plan) => parsed_document(plan.content_text@) == Some(*content) && (
                match decoded_index(index_text@) {
                    Some(items) => match plan.index_update {
                        Ok(update) => if items.contains(filename@) {
                            update is None
                        } else {
                            match update {
                                Some(t) => t@ == printed_index(saved_index(items, filename@))
                                    && decoded_index(t@) == Some(saved_index(items, filename@)),
                                None => false,
                            }
                        },
                        Err(_) => false,
                    },
                    None => (plan.index_update matches Err(ConversationError::ReadError(_))),
                }),
                Err(e) => e matches ConversationError::WriteError(_),
            },
    {
        let content_text = match encode_document(content) {
            Ok(text) => text,
            Err(e) => {
                return Err(ConversationError::WriteError(error_message(&e)));
            },
        };
        let index_update = match decode_index(index_text) {
            Ok(mut entries) => {
                let name = filename.to_owned();
                if index_contains(&entries, &name) {
                    Ok(None)
                } else {
                    let ghost prev = entries@;
                    entries.push(name);
                    proof {
                        prev.lemma_push_map_commute(|s: String| s@, name);
                        assert(views(entries@) == views(prev).push(filename@));
                    }
                    Ok(Some(encode_index(&entries)))
                }
            },
            Err(e) => Err(ConversationError::ReadError(error_message(&e))),
        };
        Ok(SavePlan { content_text, index_update })
    }

    /// Decides `delete`'s index step: the new index text with every entry
    /// equal to the filename removed, or a `ReadError` exactly when the index
    /// text does not decode. Removing the conversation file itself is the
    /// host's step; it is skipped silently for a missing file, and its
    /// failure does not stop the index update.
    pub fn delete_conversation(&self, filename: &str, index_text: &str) -> (r: Result<
        String,
        ConversationError,
    >)
        ensures
            match decoded_index(index_text@) {
                Some(items) => match r {
                    Ok(t) => t@ == printed_index(deleted_index(items, filename@))
                        && decoded_index(t@) == Some(deleted_index(items, filename@)),
                    Err(_) => false,
                },
                None => r matches Err(ConversationError::ReadError(_)),
            },
    {
        match decode_index(index_text) {
            Ok(entries) => {
                let name = filename.to_owned();
                let kept = retain_not_equal(entries, &name);
                Ok(encode_index(&kept))
            },
            Err(e) => Err(ConversationError::ReadError(error_message(&e))),
        }
    }

    /// Decides `clear`: the previously indexed filenames, whose files the
    /// host removes best effort, and the empty index text that replaces the
    /// old index; or a `ReadError` exactly when the old index does not
    /// decode.
    pub fn clear_all_conversations(&self, index_text: &str) -> (r: Result<
        ClearPlan,
        ConversationError,
    >)
        ensures
            match decoded_index(index_text@) {
                Some(items) => match r {
                    Ok(plan) => views(plan.filenames@).to_multiset() == items.to_multiset()
                        && sorted_desc(views(plan.filenames@)) && decoded_index(
                        plan.new_index_text@,
                    ) == Some(Seq::<Seq<char>>::empty()),
                    Err(_) => false,
                },
                None => r matches Err(ConversationError::ReadError(_)),
            },
    {
        match self.get_index(index_text) {
            Ok(filenames) => {
                let empty: Vec<String> = Vec::new();
                proof {
                    assert(views(empty@) =~= Seq::<Seq<char>>::empty());
                }
                Ok(ClearPlan { filenames, new_index_text: encode_index(&empty) })
            },
            Err(e) => Err(e),
        }
    }
}

/// Whether the filename is among the index entries.
fn index_contains(entries: &Vec<String>, name: &String) -> (r: bool)
    ensures
        r == views(entries@).contains(name@),
{
    let mut i: usize = 0;
    while i < entries.len()
        invariant
            i <= entries@.len(),
            forall|k: int| 0 <= k < i ==> views(entries@)[k] != name@,
        decreases entries@.len() - i,
    {
        if entries[i].eq(name) {
            assert(views(entries@)[i as int] == name@);
            return true;
        }
        i += 1;
    }
    assert(!views(entries@).contains(name@));
    false
}

/// The entries that are not equal to the filename, in their existing order.
fn retain_not_equal(entries: Vec<String>, name: &String) -> (r: Vec<String>)
    ensures
        views(r@) == deleted_index(views(entries@), name@),
{
    let mut kept: Vec<String> = Vec::new();
    let mut i: usize = 0;
    proof {
        reveal(Seq::filter);
        assert(views(entries@.take(0)) =~= Seq::<Seq<char>>::empty());
        assert(views(kept@) =~= Seq::<Seq<char>>::empty());
        assert(views(kept@) == views(entries@.take(0)).filter(keeps(name@)));
    }
    while i < entries.len()
        invariant
            i <= entries@.len(),
            views(kept@) == views(entries@.take(i as int)).filter(keeps(name@)),
        decreases entries@.len() - i,
    {
        let ghost prevk = kept@;
        let keep = !entries[i].eq(name);
        if keep {
            kept.push(entries[i].clone());
        }
        proof {
            let taken = views(entries@.take(i as int));
            entries@.take(i as int).lemma_push_map_commute(|s: String| s@, entries@[i as int]);
            assert(entries@.take(i + 1) =~= entries@.take(i as int).push(entries@[i as int]));
            assert(views(entries@.take(i + 1)) == taken.push(entries@[i as int]@));
            taken.lemma_filter_push(entries@[i as int]@, keeps(name@));
            if keep {
                prevk.lemma_push_map_commute(|s: String| s@, entries@[i as int]);
                assert(views(kept@) == views(prevk).push(entries@[i as int]@));
            }
        }
        i += 1;
    }
    proof {
        assert(entries@.take(entries@.len() as int) =~= entries@);
    }
    kept
}

} // verus!
