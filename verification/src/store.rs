//! The artifact and source store used for debugging.
//!
//! Ingestion merges one or more build outputs into a name-indexed
//! artifact catalog and a source catalog indexed by (build id, file id).
//! Artifacts without a file id are skipped, not an error: some compiler
//! outputs are intentionally partial. Every source a build references
//! is stored once, with its language tag and root-relative path; a
//! source whose text the host could not supply aborts the whole
//! ingestion before anything is stored.

use vstd::prelude::*;

use crate::assoc::distinct_keys;
use crate::assoc::lemma_pairs_map_absent;
use crate::assoc::lemma_pairs_map_index;
use crate::assoc::lemma_pairs_map_update;
use crate::assoc::pairs_map;
use crate::build_output::artifact_wf;
use crate::build_output::BuildArtifactView;
use crate::build_output::BuildOutput;
use crate::build_output::BuildRecordView;
use crate::build_output::SourceLanguage;
use crate::build_output::output_wf;
use crate::bytecode::contract_bytecode_wf;
use crate::bytecode::BytecodeObject;
use crate::bytecode::BytecodeObjectView;
use crate::bytecode::ContractBytecode;
use crate::bytecode::ContractBytecodeView;
use crate::errors::CoreError;
use crate::linker::spec_link_object;
use crate::linker::link_object;
use crate::linker::LibraryMap;
use crate::text::relative_to;
use crate::text::spec_relative_to;
use crate::text::str_eq;

verus! {

/// One stored source file: its text, language tag and root-relative
/// path.
#[derive(Debug, Clone, PartialEq, Eq)]
pub struct SourceData {
    /// The raw source text.
    pub source: String,
    /// The language the build compiled it as.
    pub language: SourceLanguage,
    /// Path relative to the project root.
    pub name: String,
}

/// Ghost image of a [`SourceData`].
pub ghost struct SourceDataView {
    pub source: Seq<char>,
    pub language: SourceLanguage,
    pub name: Seq<char>,
}

impl View for SourceData {
    type V = SourceDataView;

    open spec fn view(&self) -> SourceDataView {
        SourceDataView { source: self.source@, language: self.language, name: self.name@ }
    }
}

impl DeepView for SourceData {
    type V = SourceDataView;

    open spec fn deep_view(&self) -> SourceDataView {
        self.view()
    }
}

/// One stored artifact: canonical bytecode plus the build and file it
/// came from.
#[derive(Debug, Clone, PartialEq, Eq)]
pub struct ArtifactData {
    /// Creation and deployed bytecode, linked as far as the supplied
    /// addresses allowed.
    pub bytecode: ContractBytecode,
    /// The build that produced the artifact.
    pub build_id: String,
    /// The source file id within that build.
    pub file_id: u32,
}

/// Ghost image of an [`ArtifactData`].
pub ghost struct ArtifactDataView {
    pub bytecode: ContractBytecodeView,
    pub build_id: Seq<char>,
    pub file_id: u32,
}

impl View for ArtifactData {
    type V = ArtifactDataView;

    open spec fn view(&self) -> ArtifactDataView {
        ArtifactDataView { bytecode: self.bytecode@, build_id: self.build_id@, file_id: self.file_id }
    }
}

impl DeepView for ArtifactData {
    type V = ArtifactDataView;

    open spec fn deep_view(&self) -> ArtifactDataView {
        self.view()
    }
}

/// Ghost image of a [`ContractSources`].
pub ghost struct ContractSourcesView {
    /// (build id, file id) to stored source; keys are distinct.
    pub sources: Seq<((Seq<char>, u32), SourceDataView)>,
    /// (contract name, stored artifact), in ingestion order; a name may
    /// repeat across build rounds.
    pub artifacts: Seq<(Seq<char>, ArtifactDataView)>,
}

/// Contract source code and bytecode data used for debugging.
#[derive(Debug, Clone)]
pub struct ContractSources {
    sources_by_id: Vec<((String, u32), SourceData)>,
    artifacts_by_name: Vec<(String, ArtifactData)>,
}

impl View for ContractSources {
    type V = ContractSourcesView;

    closed spec fn view(&self) -> ContractSourcesView {
        ContractSourcesView {
            sources: self.sources_by_id.deep_view(),
            artifacts: self.artifacts_by_name.deep_view(),
        }
    }
}

/// A bytecode object as stored: linked when addresses were supplied,
/// as produced otherwise.
pub open spec fn stored_object(
    o: BytecodeObjectView,
    libs: Option<Seq<(Seq<char>, Seq<char>)>>,
) -> BytecodeObjectView {
    match libs {
        Option::Some(m) => spec_link_object(o, m),
        Option::None => o,
    }
}

/// An artifact of the build output as the catalog stores it.
pub open spec fn convert_artifact(
    a: BuildArtifactView,
    libs: Option<Seq<(Seq<char>, Seq<char>)>>,
) -> (Seq<char>, ArtifactDataView) {
    (
        a.name,
        ArtifactDataView {
            bytecode: ContractBytecodeView {
                bytecode: stored_object(
                    match a.bytecode {
                        Option::Some(o) => o,
                        Option::None => BytecodeObjectView::Bytecode(Seq::empty()),
                    },
                    libs,
                ),
                deployed_bytecode: stored_object(
                    match a.deployed_bytecode {
                        Option::Some(o) => o,
                        Option::None => BytecodeObjectView::Bytecode(Seq::empty()),
                    },
                    libs,
                ),
            },
            build_id: a.build_id,
            file_id: match a.file_id {
                Option::Some(f) => f,
                Option::None => 0,
            },
        },
    )
}

/// The artifacts a build output adds to the catalog: those with a file
/// id, in order, converted.
pub open spec fn converted_artifacts(
    arts: Seq<BuildArtifactView>,
    libs: Option<Seq<(Seq<char>, Seq<char>)>>,
) -> Seq<(Seq<char>, ArtifactDataView)> {
    arts.filter(|a: BuildArtifactView| a.file_id is Some).map_values(
        |a: BuildArtifactView| convert_artifact(a, libs),
    )
}

/// The text the host supplied for a path, if any.
pub open spec fn lookup_content(cs: Seq<(Seq<char>, Seq<char>)>, p: Seq<char>) -> Option<
    Seq<char>,
> {
    if pairs_map(cs).contains_key(p) {
        Option::Some(pairs_map(cs)[p])
    } else {
        Option::None
    }
}

/// The catalog entry one source-table row produces.
pub open spec fn source_entry(
    b: BuildRecordView,
    e: (u32, Seq<char>),
    cs: Seq<(Seq<char>, Seq<char>)>,
    root: Seq<char>,
) -> ((Seq<char>, u32), SourceDataView) {
    (
        (b.build_id, e.0),
        SourceDataView {
            source: match lookup_content(cs, e.1) {
                Option::Some(c) => c,
                Option::None => Seq::empty(),
            },
            language: b.language,
            name: spec_relative_to(e.1, root),
        },
    )
}

/// The source map after one build's rows are stored.
pub open spec fn ingest_entries(
    m: Map<(Seq<char>, u32), SourceDataView>,
    b: BuildRecordView,
    es: Seq<(u32, Seq<char>)>,
    cs: Seq<(Seq<char>, Seq<char>)>,
    root: Seq<char>,
) -> Map<(Seq<char>, u32), SourceDataView>
    decreases es.len(),
{
    if es.len() == 0 {
        m
    } else {
        let p = source_entry(b, es.last(), cs, root);
        ingest_entries(m, b, es.drop_last(), cs, root).insert(p.0, p.1)
    }
}

/// The source map after every build's rows are stored.
pub open spec fn ingest_builds(
    m: Map<(Seq<char>, u32), SourceDataView>,
    bs: Seq<BuildRecordView>,
    cs: Seq<(Seq<char>, Seq<char>)>,
    root: Seq<char>,
) -> Map<(Seq<char>, u32), SourceDataView>
    decreases bs.len(),
{
    if bs.len() == 0 {
        m
    } else {
        ingest_entries(
            ingest_builds(m, bs.drop_last(), cs, root),
            bs.last(),
            bs.last().source_id_to_path,
            cs,
            root,
        )
    }
}

impl ContractSources {
    /// Distinct (build id, file id) keys; stored bytecode well formed.
    pub open spec fn wf(&self) -> bool {
        &&& distinct_keys(self@.sources)
        &&& forall|i: int|
            0 <= i < self@.artifacts.len() ==> contract_bytecode_wf(
                (#[trigger] self@.artifacts[i]).1.bytecode,
            )
    }

    /// The source catalog as a map.
    pub open spec fn sources_map(&self) -> Map<(Seq<char>, u32), SourceDataView> {
        pairs_map(self@.sources)
    }

    /// An empty store.
    pub fn new() -> (r: ContractSources)
        ensures
            r.wf(),
            r@.sources.len() == 0,
            r@.artifacts.len() == 0,
    {
        ContractSources { sources_by_id: Vec::new(), artifacts_by_name: Vec::new() }
    }

    /// Number of stored artifacts.
    pub fn artifact_count(&self) -> (r: usize)
        ensures
            r == self@.artifacts.len(),
    {
        self.artifacts_by_name.len()
    }

    /// Stores or overwrites one source under its (build id, file id).
    fn set_source(&mut self, build_id: String, file_id: u32, data: SourceData)
        requires
            old(self).wf(),
        ensures
            final(self).wf(),
            final(self)@.artifacts == old(self)@.artifacts,
            final(self).sources_map() == old(self).sources_map().insert(
                (build_id@, file_id),
                data@,
            ),
    {
        let ghost s0 = self@.sources;
        let ghost key = (build_id@, file_id);
        let mut i: usize = 0;
        while i < self.sources_by_id.len()
            invariant
                s0 == old(self)@.sources,
                self@ == old(self)@,
                self.wf(),
                i <= self.sources_by_id@.len(),
                s0.len() == self.sources_by_id@.len(),
                key == (build_id@, file_id),
                forall|j: int| 0 <= j < i ==> (#[trigger] s0[j]).0 != key,
            decreases self.sources_by_id@.len() - i,
        {
            let hit = str_eq(self.sources_by_id[i].0.0.as_str(), build_id.as_str())
                && self.sources_by_id[i].0.1 == file_id;
            if hit {
                proof {
                    assert(s0[i as int].0 == key);
                }
                let ghost dv = data@;
                self.sources_by_id[i] = ((build_id, file_id), data);
                proof {
                    assert(self@.sources =~= s0.update(i as int, (key, dv)));
                    lemma_pairs_map_update(s0, i as int, (key, dv));
                }
                return ;
            }
            i += 1;
        }
        let ghost dv = data@;
        self.sources_by_id.push(((build_id, file_id), data));
        proof {
            assert(self@.sources =~= s0.push((key, dv)));
            assert(self@.sources.drop_last() =~= s0);
            lemma_pairs_map_absent(s0, key);
        }
    }

    /// Appends one artifact under its contract name.
    fn push_artifact(&mut self, name: String, data: ArtifactData)
        requires
            old(self).wf(),
            contract_bytecode_wf(data@.bytecode),
        ensures
            final(self).wf(),
            final(self)@.sources == old(self)@.sources,
            final(self)@.artifacts == old(self)@.artifacts.push((name@, data@)),
    {
        let ghost a0 = self@.artifacts;
        let ghost dv = data@;
        self.artifacts_by_name.push((name, data));
        proof {
            assert(self@.artifacts =~= a0.push((name@, dv)));
        }
    }

    /// Merges one build output into the store. Every artifact with a
    /// file id is linked as far as the supplied addresses allow and
    /// appended under its name; artifacts without a file id are
    /// skipped. Every source any build references is stored under its
    /// (build id, file id) with its language and root-relative path. A
    /// referenced source the host supplied no text for aborts the whole
    /// ingestion: the store is left exactly as it was.
    pub fn insert(
        &mut self,
        output: &BuildOutput,
        root: &str,
        libraries: Option<&LibraryMap>,
        contents: &Vec<(String, String)>,
    ) -> (r: Result<(), CoreError>)
        requires
            old(self).wf(),
            output_wf(output@),
            forall|i: int|
                0 <= i < output@.artifacts.len() && (#[trigger] output@.artifacts[i]).file_id
                    is Some ==> output@.artifacts[i].bytecode is Some
                    && output@.artifacts[i].deployed_bytecode is Some,
            libraries matches Option::Some(l) ==> l.wf(),
            distinct_keys(contents.deep_view()),
        ensures
            final(self).wf(),
            match r {
                Result::Ok(_) => {
                    &&& forall|b: int, s: int|
                        0 <= b < output@.builds.len() && 0 <= s < (#[trigger] output@.builds[b]).source_id_to_path.len()
                            ==> lookup_content(
                            contents.deep_view(),
                            (#[trigger] output@.builds[b].source_id_to_path[s]).1,
                        ) is Some
                    &&& final(self)@.artifacts == old(self)@.artifacts + converted_artifacts(
                        output@.artifacts,
                        match libraries {
                            Option::Some(l) => Option::Some(l@),
                            Option::None => Option::None,
                        },
                    )
                    &&& final(self).sources_map() == ingest_builds(
                        old(self).sources_map(),
                        output@.builds,
                        contents.deep_view(),
                        root@,
                    )
                },
                Result::Err(e) => {
                    &&& e matches CoreError::SourceUnreadable(p) && exists|b: int, s: int|
                        0 <= b < output@.builds.len() && 0 <= s
                            < output@.builds[b].source_id_to_path.len()
                            && (#[trigger] output@.builds[b].source_id_to_path[s]).1 == p@
                            && lookup_content(contents.deep_view(), p@) is None
                    &&& final(self)@ == old(self)@
                },
            },
    {
        let ghost ov = output@;
        let ghost cv = contents.deep_view();
        let ghost libs: Option<Seq<(Seq<char>, Seq<char>)>> = match libraries {
            Option::Some(l) => Option::Some(l@),
            Option::None => Option::None,
        };
        // First pass: every referenced source must have supplied text,
        // so that a failed ingestion leaves the store untouched.
        let mut b: usize = 0;
        while b < output.builds.len()
            invariant
                ov == output@,
                cv == contents.deep_view(),
                distinct_keys(cv),
                b <= output.builds@.len(),
                ov.builds.len() == output.builds@.len(),
                self@ == old(self)@,
                self.wf(),
                forall|b0: int, s0: int|
                    0 <= b0 < b && 0 <= s0 < (#[trigger] ov.builds[b0]).source_id_to_path.len()
                        ==> lookup_content(
                        cv,
                        (#[trigger] ov.builds[b0].source_id_to_path[s0]).1,
                    ) is Some,
            decreases output.builds@.len() - b,
        {
            let build = &output.builds[b];
            proof {
                assert(build.deep_view() == ov.builds[b as int]);
            }
            let mut s: usize = 0;
            while s < build.source_id_to_path.len()
                invariant
                    ov == output@,
                    cv == contents.deep_view(),
                distinct_keys(cv),
                    b < ov.builds.len(),
                    build.deep_view() == ov.builds[b as int],
                    s <= build.source_id_to_path@.len(),
                    ov.builds[b as int].source_id_to_path.len()
                        == build.source_id_to_path@.len(),
                    self@ == old(self)@,
                    self.wf(),
                    forall|s0: int|
                        0 <= s0 < s ==> lookup_content(
                            cv,
                            (#[trigger] ov.builds[b as int].source_id_to_path[s0]).1,
                        ) is Some,
                decreases build.source_id_to_path@.len() - s,
            {
                let path = &build.source_id_to_path[s].1;
                proof {
                    assert(ov.builds[b as int].source_id_to_path[s as int]
                        == build.source_id_to_path@[s as int].deep_view());
                }
                if content_get(contents, path.as_str()).is_none() {
                    return Result::Err(CoreError::SourceUnreadable(path.clone()));
                }
                s += 1;
            }
            b += 1;
        }
        // Second pass: store every referenced source.
        let ghost m0 = self.sources_map();
        let mut b: usize = 0;
        while b < output.builds.len()
            invariant
                ov == output@,
                cv == contents.deep_view(),
                distinct_keys(cv),
                b <= output.builds@.len(),
                ov.builds.len() == output.builds@.len(),
                m0 == old(self).sources_map(),
                self@.artifacts == old(self)@.artifacts,
                self.wf(),
                self.sources_map() == ingest_builds(m0, ov.builds.subrange(0, b as int), cv, root@),
                forall|b0: int, s0: int|
                    0 <= b0 < ov.builds.len() && 0 <= s0 < (#[trigger] ov.builds[b0]).source_id_to_path.len()
                        ==> lookup_content(
                        cv,
                        (#[trigger] ov.builds[b0].source_id_to_path[s0]).1,
                    ) is Some,
            decreases output.builds@.len() - b,
        {
            let build = &output.builds[b];
            let ghost bv = ov.builds[b as int];
            let ghost mb = self.sources_map();
            proof {
                assert(build.deep_view() == bv);
                assert(bv.source_id_to_path.subrange(0, 0) =~= Seq::<(u32, Seq<char>)>::empty());
            }
            let mut s: usize = 0;
            while s < build.source_id_to_path.len()
                invariant
                    ov == output@,
                    cv == contents.deep_view(),
                distinct_keys(cv),
                    b < ov.builds.len(),
                    bv == ov.builds[b as int],
                    build.deep_view() == bv,
                    s <= build.source_id_to_path@.len(),
                    bv.source_id_to_path.len() == build.source_id_to_path@.len(),
                    self@.artifacts == old(self)@.artifacts,
                    self.wf(),
                    self.sources_map() == ingest_entries(
                        mb,
                        bv,
                        bv.source_id_to_path.subrange(0, s as int),
                        cv,
                        root@,
                    ),
                    forall|s0: int|
                        0 <= s0 < bv.source_id_to_path.len() ==> lookup_content(
                            cv,
                            (#[trigger] bv.source_id_to_path[s0]).1,
                        ) is Some,
                decreases build.source_id_to_path@.len() - s,
            {
                let sid = build.source_id_to_path[s].0;
                let path = &build.source_id_to_path[s].1;
                proof {
                    assert(bv.source_id_to_path[s as int] == build.source_id_to_path@[
                        s as int].deep_view());
                    assert(bv.source_id_to_path[s as int].0 == sid);
                    assert(bv.source_id_to_path[s as int].1 == path@);
                }
                let content = match content_get(contents, path.as_str()) {
                    Option::Some(c) => c,
                    Option::None => {
                        proof {
                            assert(false);
                        }
                        return Result::Err(CoreError::SourceUnreadable(path.clone()));
                    },
                };
                let data = SourceData {
                    source: content.clone(),
                    language: build.language,
                    name: relative_to(path.as_str(), root),
                };
                proof {
                    assert(data@ == source_entry(bv, bv.source_id_to_path[s as int], cv, root@).1);
                }
                self.set_source(build.build_id.clone(), sid, data);
                proof {
                    let es1 = bv.source_id_to_path.subrange(0, s + 1 as int);
                    assert(es1.drop_last() =~= bv.source_id_to_path.subrange(0, s as int));
                    assert(es1.last() == bv.source_id_to_path[s as int]);
                }
                s += 1;
            }
            proof {
                assert(bv.source_id_to_path.subrange(0, bv.source_id_to_path.len() as int)
                    =~= bv.source_id_to_path);
                let bs1 = ov.builds.subrange(0, b + 1 as int);
                assert(bs1.drop_last() =~= ov.builds.subrange(0, b as int));
                assert(bs1.last() == bv);
            }
            b += 1;
        }
        proof {
            assert(ov.builds.subrange(0, ov.builds.len() as int) =~= ov.builds);
        }
        // Third pass: convert, link and append the artifacts.
        let ghost a0 = self@.artifacts;
        let mut i: usize = 0;
        proof {
            assert(ov.artifacts.subrange(0, 0) =~= Seq::<BuildArtifactView>::empty());
            reveal(Seq::filter);
        }
        while i < output.artifacts.len()
            invariant
                ov == output@,
                output_wf(ov),
                forall|x: int|
                    0 <= x < ov.artifacts.len() && (#[trigger] ov.artifacts[x]).file_id is Some
                        ==> ov.artifacts[x].bytecode is Some && ov.artifacts[x].deployed_bytecode
                        is Some,
                libs == match libraries {
                    Option::Some(l) => Option::Some(l@),
                    Option::None => Option::None::<Seq<(Seq<char>, Seq<char>)>>,
                },
                libraries matches Option::Some(l) ==> l.wf(),
                i <= output.artifacts@.len(),
                ov.artifacts.len() == output.artifacts@.len(),
                a0 == old(self)@.artifacts,
                self.wf(),
                self.sources_map() == ingest_builds(
                    old(self).sources_map(),
                    ov.builds,
                    cv,
                    root@,
                ),
                self@.artifacts == a0 + converted_artifacts(
                    ov.artifacts.subrange(0, i as int),
                    libs,
                ),
            decreases output.artifacts@.len() - i,
        {
            let artifact = &output.artifacts[i];
            proof {
                assert(artifact.deep_view() == ov.artifacts[i as int]);
            }
            let ghost pre = ov.artifacts.subrange(0, i as int);
            let ghost cur = ov.artifacts.subrange(0, i + 1 as int);
            proof {
                reveal(Seq::filter);
                assert(cur.drop_last() =~= pre);
                assert(cur.last() == ov.artifacts[i as int]);
            }
            proof {
                assert(artifact_wf(ov.artifacts[i as int]));
            }
            match artifact.file_id {
                Option::Some(fid) => {
                    let creation = match &artifact.bytecode {
                        Option::Some(o) => object_for_store(o, libraries),
                        Option::None => {
                            proof {
                                assert(false);
                            }
                            BytecodeObject::Bytecode(Vec::new())
                        },
                    };
                    let deployed = match &artifact.deployed_bytecode {
                        Option::Some(o) => object_for_store(o, libraries),
                        Option::None => {
                            proof {
                                assert(false);
                            }
                            BytecodeObject::Bytecode(Vec::new())
                        },
                    };
                    let data = ArtifactData {
                        bytecode: ContractBytecode { bytecode: creation, deployed_bytecode: deployed },
                        build_id: artifact.build_id.clone(),
                        file_id: fid,
                    };
                    proof {
                        assert((artifact.name@, data@) == convert_artifact(
                            ov.artifacts[i as int],
                            libs,
                        ));
                    }
                    self.push_artifact(artifact.name.clone(), data);
                    proof {
                        assert(converted_artifacts(cur, libs) =~= converted_artifacts(
                            pre,
                            libs,
                        ).push(convert_artifact(ov.artifacts[i as int], libs)));
                        assert(self@.artifacts =~= a0 + converted_artifacts(cur, libs));
                    }
                },
                Option::None => {
                    proof {
                        assert(converted_artifacts(cur, libs) =~= converted_artifacts(pre, libs));
                    }
                },
            }
            i += 1;
        }
        proof {
            assert(ov.artifacts.subrange(0, ov.artifacts.len() as int) =~= ov.artifacts);
        }
        Result::Ok(())
    }
}

/// The supplied text for a path, if any; the table's keys are distinct.
fn content_get<'a>(contents: &'a Vec<(String, String)>, path: &str) -> (r: Option<&'a String>)
    requires
        distinct_keys(contents.deep_view()),
    ensures
        match r {
            Option::Some(c) => lookup_content(contents.deep_view(), path@) == Option::Some(c@),
            Option::None => lookup_content(contents.deep_view(), path@) is None,
        },
{
    let ghost cv = contents.deep_view();
    let mut i: usize = 0;
    while i < contents.len()
        invariant
            cv == contents.deep_view(),
            distinct_keys(cv),
            i <= contents@.len(),
            cv.len() == contents@.len(),
            forall|j: int| 0 <= j < i ==> (#[trigger] cv[j]).0 != path@,
        decreases contents@.len() - i,
    {
        let e = &contents[i];
        if str_eq(e.0.as_str(), path) {
            proof {
                assert(cv[i as int] == contents@[i as int].deep_view());
                lemma_pairs_map_index(cv, i as int);
            }
            return Option::Some(&e.1);
        }
        proof {
            assert(cv[i as int] == contents@[i as int].deep_view());
        }
        i += 1;
    }
    proof {
        lemma_pairs_map_absent(cv, path@);
    }
    Option::None
}

/// A bytecode object prepared for storage: linked when a library map
/// was supplied, copied as-is otherwise.
fn object_for_store(o: &BytecodeObject, libraries: Option<&LibraryMap>) -> (r: BytecodeObject)
    requires
        o.wf(),
        libraries matches Option::Some(l) ==> l.wf(),
    ensures
        r.wf(),
        r@ == stored_object(
            o@,
            match libraries {
                Option::Some(l) => Option::Some(l@),
                Option::None => Option::None,
            },
        ),
{
    match libraries {
        Option::Some(l) => link_object(o, l),
        Option::None => o.duplicate(),
    }
}

impl SourceData {
    /// A copy whose view equals this source's.
    pub fn duplicate(&self) -> (r: SourceData)
        ensures
            r@ == self@,
    {
        SourceData {
            source: self.source.clone(),
            language: self.language,
            name: self.name.clone(),
        }
    }
}

impl ArtifactData {
    /// A copy whose view equals this artifact's.
    pub fn duplicate(&self) -> (r: ArtifactData)
        ensures
            r@ == self@,
    {
        ArtifactData {
            bytecode: self.bytecode.duplicate(),
            build_id: self.build_id.clone(),
            file_id: self.file_id,
        }
    }
}

/// The stored artifact has a stored source under its (build id, file
/// id).
pub open spec fn has_source(v: ContractSourcesView, p: (Seq<char>, ArtifactDataView)) -> bool {
    pairs_map(v.sources).contains_key((p.1.build_id, p.1.file_id))
}

/// The (name, artifact, source) triple of a stored artifact.
pub open spec fn entry_triple(v: ContractSourcesView, p: (Seq<char>, ArtifactDataView)) -> (
    Seq<char>,
    ArtifactDataView,
    SourceDataView,
) {
    (p.0, p.1, pairs_map(v.sources)[(p.1.build_id, p.1.file_id)])
}

/// All (name, artifact, source) triples of the store, in ingestion
/// order, restricted to artifacts whose source is stored.
pub open spec fn entries_of(v: ContractSourcesView) -> Seq<
    (Seq<char>, ArtifactDataView, SourceDataView),
> {
    v.artifacts.filter(|p: (Seq<char>, ArtifactDataView)| has_source(v, p)).map_values(
        |p: (Seq<char>, ArtifactDataView)| entry_triple(v, p),
    )
}

/// The (artifact, source) pairs stored under one contract name, in
/// ingestion order.
pub open spec fn sources_of(v: ContractSourcesView, n: Seq<char>) -> Seq<
    (ArtifactDataView, SourceDataView),
> {
    v.artifacts.filter(|p: (Seq<char>, ArtifactDataView)| p.0 == n && has_source(v, p)).map_values(
        |p: (Seq<char>, ArtifactDataView)| (p.1, entry_triple(v, p).2),
    )
}

impl ContractSources {
    /// The stored source under a (build id, file id), if any.
    fn source_get(&self, build_id: &str, file_id: u32) -> (r: Option<&SourceData>)
        requires
            self.wf(),
        ensures
            match r {
                Option::Some(d) => self.sources_map().contains_key((build_id@, file_id))
                    && d.deep_view() == self.sources_map()[(build_id@, file_id)],
                Option::None => !self.sources_map().contains_key((build_id@, file_id)),
            },
    {
        let ghost sv = self@.sources;
        let mut i: usize = 0;
        while i < self.sources_by_id.len()
            invariant
                sv == self@.sources,
                self.wf(),
                i <= self.sources_by_id@.len(),
                sv.len() == self.sources_by_id@.len(),
                forall|j: int| 0 <= j < i ==> (#[trigger] sv[j]).0 != (build_id@, file_id),
            decreases self.sources_by_id@.len() - i,
        {
            let e = &self.sources_by_id[i];
            if str_eq(e.0.0.as_str(), build_id) && e.0.1 == file_id {
                proof {
                    assert(sv[i as int].0 == (build_id@, file_id));
                    lemma_pairs_map_index(sv, i as int);
                }
                return Option::Some(&e.1);
            }
            proof {
                assert(sv[i as int] == self.sources_by_id@[i as int].deep_view());
            }
            i += 1;
        }
        proof {
            lemma_pairs_map_absent(sv, (build_id@, file_id));
        }
        Option::None
    }

    /// All sources for a contract by name: `None` when the name is
    /// unknown, else the stored (artifact, source) pairs in ingestion
    /// order, artifacts without a stored source omitted.
    pub fn get_sources(&self, name: &str) -> (r: Option<Vec<(ArtifactData, SourceData)>>)
        requires
            self.wf(),
        ensures
            match r {
                Option::Some(v) => {
                    &&& exists|j: int|
                        0 <= j < self@.artifacts.len() && (#[trigger] self@.artifacts[j]).0
                            == name@
                    &&& v.deep_view() == sources_of(self@, name@)
                },
                Option::None => forall|j: int|
                    0 <= j < self@.artifacts.len() ==> (#[trigger] self@.artifacts[j]).0 != name@,
            },
    {
        let ghost v = self@;
        let mut out: Vec<(ArtifactData, SourceData)> = Vec::new();
        let mut found = false;
        let mut i: usize = 0;
        proof {
            reveal(Seq::filter);
            assert(v.artifacts.subrange(0, 0) =~= Seq::<(Seq<char>, ArtifactDataView)>::empty());
        }
        while i < self.artifacts_by_name.len()
            invariant
                v == self@,
                self.wf(),
                i <= self.artifacts_by_name@.len(),
                v.artifacts.len() == self.artifacts_by_name@.len(),
                found == exists|j: int| 0 <= j < i && (#[trigger] v.artifacts[j]).0 == name@,
                out.deep_view() == v.artifacts.subrange(0, i as int).filter(
                    |p: (Seq<char>, ArtifactDataView)| p.0 == name@ && has_source(v, p),
                ).map_values(|p: (Seq<char>, ArtifactDataView)| (p.1, entry_triple(v, p).2)),
            decreases self.artifacts_by_name@.len() - i,
        {
            let ghost pre = v.artifacts.subrange(0, i as int);
            let ghost cur = v.artifacts.subrange(0, i + 1 as int);
            let ghost pred = |p: (Seq<char>, ArtifactDataView)| p.0 == name@ && has_source(v, p);
            proof {
                reveal(Seq::filter);
                assert(cur.drop_last() =~= pre);
                assert(cur.last() == v.artifacts[i as int]);
            }
            let pair = &self.artifacts_by_name[i];
            proof {
                assert(pair.deep_view() == v.artifacts[i as int]);
            }
            if str_eq(pair.0.as_str(), name) {
                found = true;
                proof {
                    assert(v.artifacts[i as int].0 == name@);
                }
                match self.source_get(pair.1.build_id.as_str(), pair.1.file_id) {
                    Option::Some(sd) => {
                        let ghost out0 = out.deep_view();
                        out.push((pair.1.duplicate(), sd.duplicate()));
                        proof {
                            assert(has_source(v, v.artifacts[i as int]));
                            assert(out.deep_view() =~= out0.push(
                                (v.artifacts[i as int].1, entry_triple(v, v.artifacts[i as int]).2),
                            ));
                            assert(cur.filter(pred) =~= pre.filter(pred).push(
                                v.artifacts[i as int],
                            ));
                            assert(out.deep_view() =~= cur.filter(pred).map_values(
                                |p: (Seq<char>, ArtifactDataView)| (p.1, entry_triple(v, p).2),
                            ));
                        }
                    },
                    Option::None => {
                        proof {
                            assert(!has_source(v, v.artifacts[i as int]));
                            assert(cur.filter(pred) =~= pre.filter(pred));
                        }
                    },
                }
            } else {
                proof {
                    assert(v.artifacts[i as int].0 != name@);
                    assert(cur.filter(pred) =~= pre.filter(pred));
                }
            }
            i += 1;
        }
        proof {
            assert(v.artifacts.subrange(0, v.artifacts.len() as int) =~= v.artifacts);
        }
        if found {
            Option::Some(out)
        } else {
            Option::None
        }
    }

    /// All (name, artifact, source) triples of the store, in ingestion
    /// order, artifacts without a stored source omitted.
    pub fn entries(&self) -> (r: Vec<(String, ArtifactData, SourceData)>)
        requires
            self.wf(),
        ensures
            r.deep_view() == entries_of(self@),
    {
        let ghost v = self@;
        let mut out: Vec<(String, ArtifactData, SourceData)> = Vec::new();
        let mut i: usize = 0;
        proof {
            reveal(Seq::filter);
            assert(v.artifacts.subrange(0, 0) =~= Seq::<(Seq<char>, ArtifactDataView)>::empty());
        }
        while i < self.artifacts_by_name.len()
            invariant
                v == self@,
                self.wf(),
                i <= self.artifacts_by_name@.len(),
                v.artifacts.len() == self.artifacts_by_name@.len(),
                out.deep_view() == v.artifacts.subrange(0, i as int).filter(
                    |p: (Seq<char>, ArtifactDataView)| has_source(v, p),
                ).map_values(|p: (Seq<char>, ArtifactDataView)| entry_triple(v, p)),
            decreases self.artifacts_by_name@.len() - i,
        {
            let ghost pre = v.artifacts.subrange(0, i as int);
            let ghost cur = v.artifacts.subrange(0, i + 1 as int);
            let ghost pred = |p: (Seq<char>, ArtifactDataView)| has_source(v, p);
            proof {
                reveal(Seq::filter);
                assert(cur.drop_last() =~= pre);
                assert(cur.last() == v.artifacts[i as int]);
            }
            let pair = &self.artifacts_by_name[i];
            proof {
                assert(pair.deep_view() == v.artifacts[i as int]);
            }
            match self.source_get(pair.1.build_id.as_str(), pair.1.file_id) {
                Option::Some(sd) => {
                    let ghost out0 = out.deep_view();
                    out.push((pair.0.clone(), pair.1.duplicate(), sd.duplicate()));
                    proof {
                        assert(has_source(v, v.artifacts[i as int]));
                        assert(out.deep_view() =~= out0.push(
                            entry_triple(v, v.artifacts[i as int]),
                        ));
                        assert(cur.filter(pred) =~= pre.filter(pred).push(v.artifacts[i as int]));
                        assert(out.deep_view() =~= cur.filter(pred).map_values(
                            |p: (Seq<char>, ArtifactDataView)| entry_triple(v, p),
                        ));
                    }
                },
                Option::None => {
                    proof {
                        assert(!has_source(v, v.artifacts[i as int]));
                        assert(cur.filter(pred) =~= pre.filter(pred));
                    }
                },
            }
            i += 1;
        }
        proof {
            assert(v.artifacts.subrange(0, v.artifacts.len() as int) =~= v.artifacts);
        }
        out
    }

    /// Collects the contract sources and artifacts of one build output
    /// into a fresh store.
    pub fn from_project_output(
        output: &BuildOutput,
        root: &str,
        libraries: Option<&LibraryMap>,
        contents: &Vec<(String, String)>,
    ) -> (r: Result<ContractSources, CoreError>)
        requires
            output_wf(output@),
            forall|i: int|
                0 <= i < output@.artifacts.len() && (#[trigger] output@.artifacts[i]).file_id
                    is Some ==> output@.artifacts[i].bytecode is Some
                    && output@.artifacts[i].deployed_bytecode is Some,
            libraries matches Option::Some(l) ==> l.wf(),
            distinct_keys(contents.deep_view()),
        ensures
            match r {
                Result::Ok(s) => {
                    &&& s.wf()
                    &&& forall|b: int, s0: int|
                        0 <= b < output@.builds.len() && 0 <= s0 < (#[trigger] output@.builds[b]).source_id_to_path.len()
                            ==> lookup_content(
                            contents.deep_view(),
                            (#[trigger] output@.builds[b].source_id_to_path[s0]).1,
                        ) is Some
                    &&& s@.artifacts == converted_artifacts(
                        output@.artifacts,
                        match libraries {
                            Option::Some(l) => Option::Some(l@),
                            Option::None => Option::None,
                        },
                    )
                    &&& s.sources_map() == ingest_builds(
                        Map::empty(),
                        output@.builds,
                        contents.deep_view(),
                        root@,
                    )
                },
                Result::Err(e) => e matches CoreError::SourceUnreadable(p) && exists|b: int, s: int|
                    0 <= b < output@.builds.len() && 0 <= s
                        < output@.builds[b].source_id_to_path.len()
                        && (#[trigger] output@.builds[b].source_id_to_path[s]).1 == p@
                        && lookup_content(contents.deep_view(), p@) is None,
            },
    {
        let mut sources = ContractSources::new();
        proof {
            assert(sources@.artifacts =~= Seq::<(Seq<char>, ArtifactDataView)>::empty());
            assert(sources.sources_map() =~= Map::<(Seq<char>, u32), SourceDataView>::empty());
        }
        match sources.insert(output, root, libraries, contents) {
            Result::Ok(_) => {
                proof {
                    assert(sources@.artifacts =~= converted_artifacts(
                        output@.artifacts,
                        match libraries {
                            Option::Some(l) => Option::Some(l@),
                            Option::None => Option::None,
                        },
                    ));
                }
                Result::Ok(sources)
            },
            Result::Err(e) => Result::Err(e),
        }
    }
}

} // verus!
