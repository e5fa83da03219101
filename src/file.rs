use vstd::prelude::*;
use vstd::string::StringExecFns;

verus! {

/// A file the user picked: its name, its media type and its bytes.
#[derive(Debug, Clone, PartialEq, Eq, Hash, Default)]
pub struct File {
    name: String,
    content_type: String,
    data: Vec<u8>,
}

/// The mathematical value of a [`File`].
pub struct FileView {
    pub name: Seq<char>,
    pub content_type: Seq<char>,
    pub data: Seq<u8>,
}

impl View for File {
    type V = FileView;

    closed spec fn view(&self) -> FileView {
        FileView { name: self.name@, content_type: self.content_type@, data: self.data@ }
    }
}

impl File {
    pub fn new(name: String, content_type: String, data: Vec<u8>) -> (r: File)
        ensures
            r@ == (FileView { name: name@, content_type: content_type@, data: data@ }),
    {
        File { name, content_type, data }
    }

    pub fn name(&self) -> (r: &str)
        ensures
            r@ == self@.name,
    {
        self.name.as_str()
    }

    pub fn content_type(&self) -> (r: &str)
        ensures
            r@ == self@.content_type,
    {
        self.content_type.as_str()
    }

    pub fn data(&self) -> (r: &[u8])
        ensures
            r@ == self@.data,
    {
        self.data.as_slice()
    }

    /// The file's name, as shown beside the file input.
    pub fn to_string(&self) -> (r: String)
        ensures
            r@ == self@.name,
    {
        self.name.clone()
    }
}

/// Why no file could be taken.
#[derive(Debug, Clone, Copy, PartialEq, Eq, Hash)]
pub enum FileError {
    FileTooLarge,
    InvalidFileType,
    UnknownFileError,
    NoFileSelected,
}

/// The message shown to the user for `e`.
pub open spec fn file_error_text(e: FileError) -> Seq<char> {
    match e {
        FileError::FileTooLarge => "File too large"@,
        FileError::InvalidFileType => "Invalid file type"@,
        FileError::UnknownFileError => "Unknown file error"@,
        FileError::NoFileSelected => "No file selected"@,
    }
}

impl FileError {
    /// The message shown to the user.
    pub fn to_string(&self) -> (r: String)
        ensures
            r@ == file_error_text(*self),
    {
        match self {
            FileError::FileTooLarge => String::from_str("File too large"),
            FileError::InvalidFileType => String::from_str("Invalid file type"),
            FileError::UnknownFileError => String::from_str("Unknown file error"),
            FileError::NoFileSelected => String::from_str("No file selected"),
        }
    }
}

/// The state of a file input: the file it holds, or why it holds none. Before the user
/// picks a file, it holds `initial`, or no file at all.
pub fn initial_file_state(initial: Option<File>) -> (r: Result<File, FileError>)
    ensures
        match initial {
            Some(f) => r == Ok::<File, FileError>(f),
            None => r == Err::<File, FileError>(FileError::NoFileSelected),
        },
{
    match initial {
        Some(f) => Ok(f),
        None => Err(FileError::NoFileSelected),
    }
}

/// The state of a file input after the user acted on it: `None` where the selection was
/// cleared, else the file that was read, or `UnknownFileError` where reading failed.
pub fn file_state_after(picked: Option<Result<File, ()>>) -> (r: Result<File, FileError>)
    ensures
        match picked {
            None => r == Err::<File, FileError>(FileError::NoFileSelected),
            Some(Ok(f)) => r == Ok::<File, FileError>(f),
            Some(Err(_)) => r == Err::<File, FileError>(FileError::UnknownFileError),
        },
{
    match picked {
        None => Err(FileError::NoFileSelected),
        Some(Ok(f)) => Ok(f),
        Some(Err(_)) => Err(FileError::UnknownFileError),
    }
}

} // verus!
