//! The rune bundle.

use crate::api::v1::{Rune as ApiRune, RuneView as ApiRuneView};
use crate::dict::{map_of, Dict};
use crate::rune::archive::{
    add_file, archive_of, entry_text, finish_archive, has_name, read_entry, start_archive, text_view, weight, written,
    ArchiveFault,
};
use crate::rune::metadata::{ConfigItem, Metadata, MetadataView};
use crate::rune::template::{Template, TemplateView};
use crate::server::error::{Error, ErrorView};
use vstd::prelude::*;

verus! {

/// A rune: its metadata, its container templates and two optional scripts,
/// which are carried through as text.
#[derive(Clone, Debug, PartialEq)]
pub struct Rune {
    pub metadata: Metadata,
    pub template: Vec<Template>,
    pub transformers: Option<String>,
    pub react: Option<String>,
}

pub struct RuneView {
    pub metadata: MetadataView,
    pub template: Seq<TemplateView>,
    pub transformers: Option<Seq<char>>,
    pub react: Option<Seq<char>>,
}

impl RuneView {
    /// The state of the rune when it is attached to a model: every
    /// configuration item with its initial value.
    pub open spec fn initial_state(self) -> ApiRuneView {
        ApiRuneView {
            transformers: self.transformers,
            react: self.react,
            state: self.metadata.config.map_values(|item: crate::rune::metadata::ConfigItemView| item.initial_value()),
        }
    }
}

impl View for Rune {
    type V = RuneView;

    open spec fn view(&self) -> RuneView {
        RuneView {
            metadata: self.metadata@,
            template: self.template@.map_values(|t: Template| t@),
            transformers: self.transformers.deep_view(),
            react: self.react.deep_view(),
        }
    }
}

/// The initial values of the first `n` entries, inserted in order.
proof fn lemma_initial_values_step(s: Seq<(String, ConfigItem)>, n: int)
    requires
        0 <= n < s.len(),
    ensures
        map_of(s.take(n + 1)).map_values(|item: crate::rune::metadata::ConfigItemView| item.initial_value())
            == map_of(s.take(n)).map_values(|item: crate::rune::metadata::ConfigItemView| item.initial_value())
                .insert(s[n].0@, s[n].1@.initial_value()),
{
    let f = |item: crate::rune::metadata::ConfigItemView| item.initial_value();
    assert(s.take(n + 1).drop_last() == s.take(n));
    assert(s.take(n + 1).last() == s[n]);
    assert(map_of(s.take(n + 1)) == map_of(s.take(n)).insert(s[n].0@, s[n].1@));
    assert(map_of(s.take(n)).insert(s[n].0@, s[n].1@).map_values(f) =~= map_of(s.take(n)).map_values(f).insert(
        s[n].0@,
        f(s[n].1@),
    ));
}

impl Rune {
    /// The state of the rune when it is attached to a model.
    pub fn into_api(&self) -> (r: ApiRune)
        ensures
            r@ == self@.initial_state(),
    {
        let mut state: Dict<Option<String>> = Dict::new();
        let ghost f = |item: crate::rune::metadata::ConfigItemView| item.initial_value();
        let mut i: usize = 0;
        proof {
            assert(map_of(self.metadata.config.entries@.take(0)).map_values(f) =~= state@);
        }
        while i < self.metadata.config.entries.len()
            invariant
                i <= self.metadata.config.entries@.len(),
                f == |item: crate::rune::metadata::ConfigItemView| item.initial_value(),
                state@ == map_of(self.metadata.config.entries@.take(i as int)).map_values(f),
            decreases self.metadata.config.entries@.len() - i,
        {
            proof {
                lemma_initial_values_step(self.metadata.config.entries@, i as int);
            }
            let name = self.metadata.config.entries[i].0.clone();
            let value = self.metadata.config.entries[i].1.initial_value();
            state.insert(name, value);
            i += 1;
        }
        proof {
            assert(self.metadata.config.entries@.take(i as int) == self.metadata.config.entries@);
        }
        ApiRune { transformers: self.transformers.clone(), react: self.react.clone(), state }
    }
}

/// The documents of a rune archive, as text: the metadata and the templates,
/// and the two scripts where the rune has them.
#[derive(Clone, Debug, PartialEq)]
pub struct RuneFiles {
    pub metadata: String,
    pub template: String,
    pub transformers: Option<String>,
    pub react: Option<String>,
}

pub struct RuneFilesView {
    pub metadata: Seq<char>,
    pub template: Seq<char>,
    pub transformers: Option<Seq<char>>,
    pub react: Option<Seq<char>>,
}

impl View for RuneFiles {
    type V = RuneFilesView;

    open spec fn view(&self) -> RuneFilesView {
        RuneFilesView {
            metadata: self.metadata@,
            template: self.template@,
            transformers: self.transformers.deep_view(),
            react: self.react.deep_view(),
        }
    }
}

/// An entry that may be missing: an archive without it has none; any other
/// failure stays a failure.
pub open spec fn optional(entry: Result<Seq<char>, ArchiveFault>) -> Result<Option<Seq<char>>, ArchiveFault> {
    match entry {
        Ok(text) => Ok(Some(text)),
        Err(ArchiveFault::FileNotFound) => Ok(None),
        Err(fault) => Err(fault),
    }
}

/// The documents that the four entries of an archive make up, or the first
/// failure: the metadata and the templates must be there, the scripts may be
/// missing.
pub open spec fn assembled(
    metadata: Result<Seq<char>, ArchiveFault>,
    template: Result<Seq<char>, ArchiveFault>,
    transformers: Result<Seq<char>, ArchiveFault>,
    react: Result<Seq<char>, ArchiveFault>,
) -> Result<RuneFilesView, ArchiveFault> {
    match metadata {
        Err(fault) => Err(fault),
        Ok(metadata) => match template {
            Err(fault) => Err(fault),
            Ok(template) => match optional(transformers) {
                Err(fault) => Err(fault),
                Ok(transformers) => match optional(react) {
                    Err(fault) => Err(fault),
                    Ok(react) => Ok(RuneFilesView { metadata, template, transformers, react }),
                },
            },
        },
    }
}

/// The entries of the archive of a rune, in the order in which they are
/// written: the metadata, the templates, then the scripts that the rune has.
pub open spec fn entries_of(files: RuneFilesView) -> Seq<(Seq<char>, Seq<u8>)> {
    seq![
        ("metadata.yaml"@, vstd::utf8::encode_utf8(files.metadata)),
        ("rune.yaml"@, vstd::utf8::encode_utf8(files.template)),
    ] + (match files.transformers {
        Some(text) => seq![("transformers.py"@, vstd::utf8::encode_utf8(text))],
        None => Seq::<(Seq<char>, Seq<u8>)>::empty(),
    }) + (match files.react {
        Some(text) => seq![("rune.py"@, vstd::utf8::encode_utf8(text))],
        None => Seq::<(Seq<char>, Seq<u8>)>::empty(),
    })
}

impl RuneFiles {
    /// The documents that the four entries of an archive make up: each
    /// argument is what reading one entry came to.
    pub fn from_entries(
        metadata: Result<String, ArchiveFault>,
        template: Result<String, ArchiveFault>,
        transformers: Result<String, ArchiveFault>,
        react: Result<String, ArchiveFault>,
    ) -> (r: Result<RuneFiles, Error>)
        ensures
            match r {
                Ok(files) => assembled(
                    text_view(metadata),
                    text_view(template),
                    text_view(transformers),
                    text_view(react),
                ) == Ok::<RuneFilesView, ArchiveFault>(files@),
                Err(e) => {
                    &&& assembled(
                        text_view(metadata),
                        text_view(template),
                        text_view(transformers),
                        text_view(react),
                    ) matches Err(fault)
                    &&& e@ == ErrorView::Archive(fault)
                },
            },
    {
        let metadata = match metadata {
            Ok(text) => text,
            Err(fault) => {
                return Err(Error::Archive(fault));
            },
        };
        let template = match template {
            Ok(text) => text,
            Err(fault) => {
                return Err(Error::Archive(fault));
            },
        };
        let transformers = match transformers {
            Ok(text) => Some(text),
            Err(ArchiveFault::FileNotFound) => None,
            Err(fault) => {
                return Err(Error::Archive(fault));
            },
        };
        let react = match react {
            Ok(text) => Some(text),
            Err(ArchiveFault::FileNotFound) => None,
            Err(fault) => {
                return Err(Error::Archive(fault));
            },
        };
        Ok(RuneFiles { metadata, template, transformers, react })
    }
}

/// The bytes that the documents of a rune take together.
pub open spec fn documents_size(files: RuneFilesView) -> nat {
    vstd::utf8::encode_utf8(files.metadata).len() + vstd::utf8::encode_utf8(files.template).len() + (match files.transformers {
        Some(text) => vstd::utf8::encode_utf8(text).len(),
        None => 0,
    }) + (match files.react {
        Some(text) => vstd::utf8::encode_utf8(text).len(),
        None => 0,
    })
}

/// The size up to which the documents of a rune are sure to be packed: one
/// GiB less what the names of the entries weigh.
pub const MAX_DOCUMENTS: usize = 0x3fff_ff00;

/// What one more entry adds to the weight of entries.
proof fn lemma_weight_push(entries: Seq<(Seq<char>, Seq<u8>)>, name: Seq<char>, content: Seq<u8>)
    ensures
        weight(entries.push((name, content))) == weight(entries) + 4 * name.len() + content.len(),
{
    assert(entries.push((name, content)).drop_last() == entries);
}

impl Rune {
    /// Packs the documents of a rune into an archive: the metadata as
    /// `metadata.yaml`, the templates as `rune.yaml`, and the scripts, where
    /// the rune has them, as `transformers.py` and `rune.py`, in this order.
    /// Documents of up to `MAX_DOCUMENTS` bytes together are packed for sure.
    pub fn zip(files: &RuneFiles) -> (r: Result<Vec<u8>, Error>)
        ensures
            documents_size(files@) <= MAX_DOCUMENTS ==> r is Ok,
            match r {
                Ok(bytes) => bytes@ == archive_of(entries_of(files@)),
                Err(e) => e@ is Archive,
            },
    {
        proof {
            reveal_strlit("metadata.yaml");
            reveal_strlit("rune.yaml");
            reveal_strlit("transformers.py");
            reveal_strlit("rune.py");
        }
        let w = start_archive();
        let ghost none = written(w);
        let metadata = files.metadata.as_str().as_bytes();
        proof {
            lemma_weight_push(none, "metadata.yaml"@, metadata@);
        }
        let w = match add_file(w, "metadata.yaml", metadata) {
            Ok(w) => w,
            Err(fault) => {
                return Err(Error::Archive(fault));
            },
        };
        let ghost one = written(w);
        let template = files.template.as_str().as_bytes();
        proof {
            lemma_weight_push(one, "rune.yaml"@, template@);
            assert(!has_name(one, "rune.yaml"@)) by {
                assert(one[0].0.len() == 13);
            }
        }
        let w = match add_file(w, "rune.yaml", template) {
            Ok(w) => w,
            Err(fault) => {
                return Err(Error::Archive(fault));
            },
        };
        let ghost two = written(w);
        let w = match &files.transformers {
            Some(text) => {
                let content = text.as_str().as_bytes();
                proof {
                    lemma_weight_push(two, "transformers.py"@, content@);
                    assert(!has_name(two, "transformers.py"@)) by {
                        assert(two[0].0.len() == 13);
                        assert(two[1].0.len() == 9);
                    }
                }
                match add_file(w, "transformers.py", content) {
                    Ok(w) => w,
                    Err(fault) => {
                        return Err(Error::Archive(fault));
                    },
                }
            },
            None => w,
        };
        let ghost three = written(w);
        let w = match &files.react {
            Some(text) => {
                let content = text.as_str().as_bytes();
                proof {
                    lemma_weight_push(three, "rune.py"@, content@);
                    assert(!has_name(three, "rune.py"@)) by {
                        assert(three[0].0.len() == 13);
                        assert(three[1].0.len() == 9);
                        if three.len() > 2 {
                            assert(three[2].0.len() == 15);
                        }
                    }
                }
                match add_file(w, "rune.py", content) {
                    Ok(w) => w,
                    Err(fault) => {
                        return Err(Error::Archive(fault));
                    },
                }
            },
            None => w,
        };
        proof {
            assert(written(w) =~= entries_of(files@));
        }
        match finish_archive(w) {
            Ok(bytes) => Ok(bytes),
            Err(fault) => Err(Error::Archive(fault)),
        }
    }

    /// Unpacks the documents of a rune from an archive. The entries
    /// `metadata.yaml` and `rune.yaml` must be there; `transformers.py` and
    /// `rune.py` may be missing.
    pub fn unzip(bytes: &[u8]) -> (r: Result<RuneFiles, Error>)
        ensures
            match r {
                Ok(files) => unzipped(bytes@) == Ok::<RuneFilesView, ArchiveFault>(files@),
                Err(e) => unzipped(bytes@) matches Err(fault) && e@ == ErrorView::Archive(fault),
            },
    {
        let metadata = read_entry(bytes, "metadata.yaml");
        let template = read_entry(bytes, "rune.yaml");
        let transformers = read_entry(bytes, "transformers.py");
        let react = read_entry(bytes, "rune.py");
        RuneFiles::from_entries(metadata, template, transformers, react)
    }
}

/// What reading an entry comes to where it reads as it was written: the text
/// of a document that is there, and a missing entry for one that is not.
pub open spec fn read_back(document: Option<Seq<char>>) -> Result<Seq<char>, ArchiveFault> {
    match document {
        Some(text) => Ok(text),
        None => Err(ArchiveFault::FileNotFound),
    }
}

/// Documents whose entries read as they were written are unpacked as they
/// were packed.
pub proof fn lemma_documents_read_back(files: RuneFilesView)
    ensures
        assembled(
            read_back(Some(files.metadata)),
            read_back(Some(files.template)),
            read_back(files.transformers),
            read_back(files.react),
        ) == Ok::<RuneFilesView, ArchiveFault>(files),
{
}

/// The documents that the archive `bytes` holds, or why they cannot be had.
pub open spec fn unzipped(bytes: Seq<u8>) -> Result<RuneFilesView, ArchiveFault> {
    assembled(
        entry_text(bytes, "metadata.yaml"@),
        entry_text(bytes, "rune.yaml"@),
        entry_text(bytes, "transformers.py"@),
        entry_text(bytes, "rune.py"@),
    )
}

} // verus!
