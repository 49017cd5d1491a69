use vstd::prelude::*;

use crate::diagn::{diagnostic, report_error, Message, Report, Span};

verus! {

/// A small integer standing for a file name.
pub type FileServerHandle = u16;

/// Lookups fail once this many handles are in use (`FileServerHandle::MAX`).
pub const HANDLE_LIMIT: usize = 65535;

/// The number of distinct handles there are (every `FileServerHandle` value).
pub const HANDLE_COUNT: usize = 65536;

/// No name occurs twice.
pub open spec fn distinct_names(names: Seq<Seq<char>>) -> bool {
    forall|i: int, j: int| 0 <= i < names.len() && 0 <= j < names.len() && i != j ==> names[i] != names[j]
}

/// The handle of `name` among `names`: its position.
pub open spec fn handle_of(names: Seq<Seq<char>>, name: Seq<char>) -> int {
    choose|i: int| 0 <= i < names.len() && names[i] == name
}

/// Handles are allocated in order of first appearance: with distinct names, a
/// new name appended to the list gets the handle equal to the number of names
/// before it, and every name already present keeps its handle.
pub proof fn lemma_handle_allocation_order(names: Seq<Seq<char>>, name: Seq<char>, other: Seq<char>)
    requires
        distinct_names(names),
        !names.contains(name),
        names.contains(other),
    ensures
        distinct_names(names.push(name)),
        handle_of(names.push(name), name) == names.len(),
        handle_of(names.push(name), other) == handle_of(names, other),
{
    let grown = names.push(name);
    assert(grown[names.len() as int] == name);
    let h = handle_of(grown, name);
    assert(0 <= h < grown.len() && grown[h] == name);
    let o = handle_of(names, other);
    assert(grown[o] == other);
    let g = handle_of(grown, other);
    assert(0 <= g < grown.len() && grown[g] == other);
}

/// The position of `filename` in `names`, if it is there.
fn find_name(names: &Vec<String>, filename: &String) -> (r: Option<usize>)
    ensures
        match r {
            Some(i) => i < names@.len() && names@[i as int]@ == filename@,
            None => forall|i: int| 0 <= i < names@.len() ==> (#[trigger] names@[i])@ != filename@,
        },
{
    let mut i: usize = 0;
    while i < names.len()
        invariant
            i <= names@.len(),
            forall|k: int| 0 <= k < i ==> (#[trigger] names@[k])@ != filename@,
        decreases names@.len() - i,
    {
        if names[i] == *filename {
            return Some(i);
        }
        i = i + 1;
    }
    None
}

/// The view of a list of file names.
pub open spec fn name_views(names: Seq<String>) -> Seq<Seq<char>> {
    names.map_values(|s: String| s@)
}

/// An in-memory file server: files are registered with their contents ahead
/// of time, and a name gets the next unused handle when first seen.
pub struct FileServerMock {
    handles_to_filename: Vec<String>,
    files: Vec<Vec<u8>>,
}

impl FileServerMock {
    /// The registered names, indexed by handle.
    pub closed spec fn filenames(&self) -> Seq<Seq<char>> {
        name_views(self.handles_to_filename@)
    }

    /// The contents of the files, indexed by handle.
    pub closed spec fn contents(&self) -> Seq<Seq<u8>> {
        self.files@.map_values(|f: Vec<u8>| f@)
    }

    pub open spec fn wf(&self) -> bool {
        &&& self.filenames().len() == self.contents().len()
        &&& distinct_names(self.filenames())
        &&& self.filenames().len() <= HANDLE_COUNT
    }

    pub fn new() -> (r: FileServerMock)
        ensures
            r.wf(),
            r.filenames() == Seq::<Seq<char>>::empty(),
            r.contents() == Seq::<Seq<u8>>::empty(),
    {
        let r = FileServerMock { handles_to_filename: Vec::new(), files: Vec::new() };
        assert(r.filenames() =~= Seq::<Seq<char>>::empty());
        assert(r.contents() =~= Seq::<Seq<u8>>::empty());
        r
    }

    /// Registers `filename` with `contents`, replacing the contents of a name
    /// registered before.
    pub fn add(&mut self, filename: &str, contents: Vec<u8>)
        requires
            old(self).wf(),
            old(self).filenames().contains(filename@) || old(self).filenames().len() < HANDLE_COUNT,
        ensures
            final(self).wf(),
            old(self).filenames().contains(filename@) ==> {
                &&& final(self).filenames() == old(self).filenames()
                &&& final(self).contents() == old(self).contents().update(
                    handle_of(old(self).filenames(), filename@),
                    contents@,
                )
            },
            !old(self).filenames().contains(filename@) ==> {
                &&& final(self).filenames() == old(self).filenames().push(filename@)
                &&& final(self).contents() == old(self).contents().push(contents@)
            },
    {
        let name = filename.to_owned();
        let ghost names = self.filenames();
        match find_name(&self.handles_to_filename, &name) {
            Some(h) => {
                assert(names[h as int] == filename@);
                assert(names.contains(filename@));
                let ghost c = handle_of(names, filename@);
                assert(c == h as int);
                self.files[h] = contents;
                assert(self.filenames() =~= names);
                assert(self.contents() =~= old(self).contents().update(h as int, contents@));
            },
            None => {
                assert(!names.contains(filename@)) by {
                    if names.contains(filename@) {
                        let k = choose|k: int| 0 <= k < names.len() && names[k] == filename@;
                        assert(self.handles_to_filename@[k]@ == filename@);
                    }
                }
                self.handles_to_filename.push(name);
                self.files.push(contents);
                assert(self.filenames() =~= names.push(filename@));
                assert(self.contents() =~= old(self).contents().push(contents@));
            },
        }
    }

    /// How many names are registered.
    pub fn handle_count(&self) -> (r: usize)
        ensures
            r == self.filenames().len(),
    {
        self.handles_to_filename.len()
    }

    /// The handle of a registered file. Fails, with a diagnostic, when all
    /// handles are in use or the name was never registered.
    pub fn get_handle(&mut self, report: &mut Report, span: Option<Span>, filename: &str) -> (r: Result<
        FileServerHandle,
        (),
    >)
        requires
            old(self).wf(),
        ensures
            *final(self) == *old(self),
            old(self).filenames().len() == HANDLE_LIMIT ==> r is Err && final(report)@ == old(report)@.push(
                diagnostic(Message::ExhaustedFileHandles, span),
            ),
            old(self).filenames().len() != HANDLE_LIMIT && !old(self).filenames().contains(filename@) ==> r is Err
                && final(report)@.len() == old(report)@.len() + 1 && final(report)@.drop_last() == old(report)@
                && final(report)@.last().span == span && match final(report)@.last().message {
                Message::FileNotFound(name) => name@ == filename@,
                _ => false,
            },
            old(self).filenames().len() != HANDLE_LIMIT && old(self).filenames().contains(filename@) ==> r
                == Ok::<FileServerHandle, ()>(handle_of(old(self).filenames(), filename@) as FileServerHandle)
                && final(report)@ == old(report)@,
    {
        if self.handles_to_filename.len() == HANDLE_LIMIT {
            report_error(report, span, Message::ExhaustedFileHandles);
            return Err(());
        }
        let name = filename.to_owned();
        let ghost names = self.filenames();
        match find_name(&self.handles_to_filename, &name) {
            Some(h) => {
                assert(names[h as int] == filename@);
                assert(names.contains(filename@));
                assert(handle_of(names, filename@) == h as int);
                Ok(h as FileServerHandle)
            },
            None => {
                assert(!names.contains(filename@)) by {
                    if names.contains(filename@) {
                        let k = choose|k: int| 0 <= k < names.len() && names[k] == filename@;
                        assert(self.handles_to_filename@[k]@ == filename@);
                    }
                }
                report_error(report, span, Message::FileNotFound(name));
                Err(())
            },
        }
    }

    /// The name registered under `file_handle`.
    pub fn get_filename(&self, file_handle: FileServerHandle) -> (r: &str)
        requires
            self.wf(),
            (file_handle as int) < self.filenames().len(),
        ensures
            r@ == self.filenames()[file_handle as int],
    {
        self.handles_to_filename[file_handle as usize].as_str()
    }

    /// The contents registered under `file_handle`.
    pub fn get_bytes(&self, report: &mut Report, span: Option<Span>, file_handle: FileServerHandle) -> (r: Result<
        Vec<u8>,
        (),
    >)
        requires
            self.wf(),
            (file_handle as int) < self.filenames().len(),
        ensures
            r is Ok,
            r.unwrap()@ == self.contents()[file_handle as int],
            final(report)@ == old(report)@,
    {
        Ok(self.files[file_handle as usize].clone())
    }

    /// Stores `data` under `filename`, registering the name if it is new.
    pub fn write_bytes(
        &mut self,
        report: &mut Report,
        span: Option<Span>,
        filename: &str,
        data: &Vec<u8>,
    ) -> (r: Result<(), ()>)
        requires
            old(self).wf(),
            old(self).filenames().contains(filename@) || old(self).filenames().len() < HANDLE_COUNT,
        ensures
            r is Ok,
            final(report)@ == old(report)@,
            final(self).wf(),
            old(self).filenames().contains(filename@) ==> {
                &&& final(self).filenames() == old(self).filenames()
                &&& final(self).contents() == old(self).contents().update(
                    handle_of(old(self).filenames(), filename@),
                    data@,
                )
            },
            !old(self).filenames().contains(filename@) ==> {
                &&& final(self).filenames() == old(self).filenames().push(filename@)
                &&& final(self).contents() == old(self).contents().push(data@)
            },
    {
        self.add(filename, data.clone());
        Ok(())
    }
}

/// A file server backed by the disk: a name gets a handle when it is first
/// looked up and the file exists, the lowest unused one.
pub struct FileServerReal {
    handles_to_filename: Vec<String>,
}

impl FileServerReal {
    /// The names seen so far, indexed by handle.
    pub closed spec fn filenames(&self) -> Seq<Seq<char>> {
        name_views(self.handles_to_filename@)
    }

    pub open spec fn wf(&self) -> bool {
        &&& distinct_names(self.filenames())
        &&& self.filenames().len() <= HANDLE_LIMIT
    }

    pub fn new() -> (r: FileServerReal)
        ensures
            r.wf(),
            r.filenames() == Seq::<Seq<char>>::empty(),
    {
        let r = FileServerReal { handles_to_filename: Vec::new() };
        assert(r.filenames() =~= Seq::<Seq<char>>::empty());
        r
    }

    /// How many names have a handle.
    pub fn handle_count(&self) -> (r: usize)
        ensures
            r == self.filenames().len(),
    {
        self.handles_to_filename.len()
    }

    /// The handle of `filename`, given whether a file of that name exists.
    /// Fails, with a diagnostic, when it does not exist or when all handles
    /// are in use; a name seen before keeps its handle, and a new one takes
    /// the lowest unused handle.
    pub fn get_handle(
        &mut self,
        report: &mut Report,
        span: Option<Span>,
        filename: &str,
        exists: bool,
    ) -> (r: Result<FileServerHandle, ()>)
        requires
            old(self).wf(),
        ensures
            final(self).wf(),
            !exists ==> r is Err && *final(self) == *old(self) && final(report)@.len() == old(report)@.len() + 1
                && final(report)@.drop_last() == old(report)@ && final(report)@.last().span == span
                && match final(report)@.last().message {
                Message::FileNotFound(name) => name@ == filename@,
                _ => false,
            },
            exists && old(self).filenames().len() == HANDLE_LIMIT ==> r is Err && *final(self) == *old(self)
                && final(report)@ == old(report)@.push(diagnostic(Message::ExhaustedFileHandles, span)),
            exists && old(self).filenames().len() != HANDLE_LIMIT && old(self).filenames().contains(filename@)
                ==> r == Ok::<FileServerHandle, ()>(handle_of(old(self).filenames(), filename@) as FileServerHandle)
                && *final(self) == *old(self) && final(report)@ == old(report)@,
            exists && old(self).filenames().len() != HANDLE_LIMIT && !old(self).filenames().contains(filename@)
                ==> r == Ok::<FileServerHandle, ()>(old(self).filenames().len() as FileServerHandle)
                && final(self).filenames() == old(self).filenames().push(filename@) && final(report)@ == old(report)@,
    {
        let name = filename.to_owned();
        if !exists {
            report_error(report, span, Message::FileNotFound(name));
            return Err(());
        }
        if self.handles_to_filename.len() == HANDLE_LIMIT {
            report_error(report, span, Message::ExhaustedFileHandles);
            return Err(());
        }
        let ghost names = self.filenames();
        match find_name(&self.handles_to_filename, &name) {
            Some(h) => {
                assert(names[h as int] == filename@);
                assert(names.contains(filename@));
                assert(handle_of(names, filename@) == h as int);
                Ok(h as FileServerHandle)
            },
            None => {
                assert(!names.contains(filename@)) by {
                    if names.contains(filename@) {
                        let k = choose|k: int| 0 <= k < names.len() && names[k] == filename@;
                        assert(self.handles_to_filename@[k]@ == filename@);
                    }
                }
                let handle = self.handles_to_filename.len() as FileServerHandle;
                self.handles_to_filename.push(name);
                assert(self.filenames() =~= names.push(filename@));
                Ok(handle)
            },
        }
    }

    /// The name that `file_handle` stands for.
    pub fn get_filename(&self, file_handle: FileServerHandle) -> (r: &str)
        requires
            (file_handle as int) < self.filenames().len(),
        ensures
            r@ == self.filenames()[file_handle as int],
    {
        self.handles_to_filename[file_handle as usize].as_str()
    }
}

} // verus!
