pub mod commands;
pub mod cloudfront;
pub mod hira_awscfn;
pub mod hira_awsregions;
pub mod hira_awssqs;
pub mod lambda;
pub mod s3;

use vstd::prelude::*;
use vstd::string::*;

use crate::level0::{entries_view, opt_view, EntryV, SharedOutputEntry, UserInput};
use crate::registry::MatchArm;
use crate::text::to_string;

verus! {

/// The item a registry module is applied to.
pub enum UserData {
    /// a module definition
    Module { name: String, is_pub: bool, body: String, append_to_body: Vec<String> },
    /// a function
    Function {
        name: String,
        is_pub: bool,
        is_async: bool,
        inputs: Vec<UserInput>,
        return_ty: String,
    },
    /// a `match` expression, with its scrutinee tuple and arms
    Match { name: String, is_pub: bool, expr: Vec<String>, arms: Vec<MatchArm> },
    /// any other item
    Other,
}

/// The name of the item, empty for another item.
pub open spec fn user_data_name(d: UserData) -> Seq<char> {
    match d {
        UserData::Module { name, .. } => name@,
        UserData::Function { name, .. } => name@,
        UserData::Match { name, .. } => name@,
        UserData::Other => Seq::empty(),
    }
}

impl UserData {
    /// The name of the item, empty for another item.
    pub fn get_name(&self) -> (r: String)
        ensures
            r@ == user_data_name(*self),
    {
        match self {
            UserData::Module { name, .. } => name.clone(),
            UserData::Function { name, .. } => name.clone(),
            UserData::Match { name, .. } => name.clone(),
            UserData::Other => String::new(),
        }
    }
}

/// What a registry module gets and gives back: the item it is applied to, the compiler
/// error it reports, code to add after the item, and lines for shared files.
pub struct LibraryObj {
    pub compiler_error_message: String,
    pub add_code_after: Vec<String>,
    pub crate_name: String,
    pub user_data: UserData,
    pub shared_output_data: Vec<SharedOutputEntry>,
}

pub open spec fn strs_view(v: Seq<String>) -> Seq<Seq<char>> {
    Seq::new(v.len(), |i: int| v[i]@)
}

/// A line for a file.
pub open spec fn plain_entry(file: Seq<char>, label: Seq<char>, line: Seq<char>) -> EntryV {
    EntryV { filename: file, label: label, line: line, unique: false, after: None }
}

/// A line written once under its label.
pub open spec fn unique_entry(file: Seq<char>, label: Seq<char>, line: Seq<char>) -> EntryV {
    EntryV { filename: file, label: label, line: line, unique: true, after: None }
}

/// A text to write after the first occurrence of a line.
pub open spec fn after_entry(file: Seq<char>, label: Seq<char>, line: Seq<char>, after: Seq<char>) -> EntryV {
    EntryV { filename: file, label: label, line: line, unique: false, after: Some(after) }
}

/// The error message after an error is reported: the first reported error is kept.
pub open spec fn with_error(current: Seq<char>, err: Seq<char>) -> Seq<char> {
    if current.len() == 0 {
        err
    } else {
        current
    }
}

impl LibraryObj {
    pub open spec fn entries(&self) -> Seq<EntryV> {
        entries_view(self.shared_output_data@)
    }

    /// An object for an item of no known kind, with nothing reported.
    pub fn new() -> (r: LibraryObj)
        ensures
            r.compiler_error_message@ == Seq::<char>::empty(),
            r.add_code_after@.len() == 0,
            r.crate_name@ == Seq::<char>::empty(),
            r.user_data is Other,
            r.entries() == Seq::<EntryV>::empty(),
    {
        let r = LibraryObj {
            compiler_error_message: String::new(),
            add_code_after: Vec::new(),
            crate_name: String::new(),
            user_data: UserData::Other,
            shared_output_data: Vec::new(),
        };
        assert(r.entries() =~= Seq::<EntryV>::empty());
        r
    }

    /// Reports a compiler error; the first one reported is kept.
    pub fn compiler_error(&mut self, err_msg: &str)
        ensures
            final(self).compiler_error_message@ == with_error(
                old(self).compiler_error_message@,
                err_msg@,
            ),
            final(self).add_code_after@ == old(self).add_code_after@,
            final(self).crate_name@ == old(self).crate_name@,
            final(self).user_data == old(self).user_data,
            final(self).shared_output_data@ == old(self).shared_output_data@,
    {
        if self.compiler_error_message.as_str().unicode_len() == 0 {
            self.compiler_error_message = to_string(err_msg);
        }
    }

    fn push_entry(&mut self, e: SharedOutputEntry)
        ensures
            final(self).entries() == old(self).entries().push(e@),
            final(self).compiler_error_message@ == old(self).compiler_error_message@,
            final(self).add_code_after@ == old(self).add_code_after@,
            final(self).crate_name@ == old(self).crate_name@,
            final(self).user_data == old(self).user_data,
    {
        let ghost ev = e@;
        self.shared_output_data.push(e);
        assert(self.entries() =~= old(self).entries().push(ev));
    }

    /// Asks for a line under a label of a shared file.
    pub fn append_to_file(&mut self, name: &str, label: &str, line: String)
        ensures
            final(self).entries() == old(self).entries().push(plain_entry(name@, label@, line@)),
            final(self).compiler_error_message@ == old(self).compiler_error_message@,
            final(self).add_code_after@ == old(self).add_code_after@,
            final(self).crate_name@ == old(self).crate_name@,
            final(self).user_data == old(self).user_data,
    {
        self.push_entry(
            SharedOutputEntry {
                filename: to_string(name),
                label: to_string(label),
                line,
                unique: false,
                after: None,
            },
        );
    }

    /// Asks for a line under a label of a shared file, written once under that label.
    pub fn append_to_file_unique(&mut self, name: &str, label: &str, line: String)
        ensures
            final(self).entries() == old(self).entries().push(unique_entry(name@, label@, line@)),
            final(self).compiler_error_message@ == old(self).compiler_error_message@,
            final(self).add_code_after@ == old(self).add_code_after@,
            final(self).crate_name@ == old(self).crate_name@,
            final(self).user_data == old(self).user_data,
    {
        self.push_entry(
            SharedOutputEntry {
                filename: to_string(name),
                label: to_string(label),
                line,
                unique: true,
                after: None,
            },
        );
    }

    /// Asks to write `after` right after the first occurrence of `line` under the label.
    pub fn append_to_line(&mut self, name: &str, label: &str, line: String, after: String)
        ensures
            final(self).entries() == old(self).entries().push(
                after_entry(name@, label@, line@, after@),
            ),
            final(self).compiler_error_message@ == old(self).compiler_error_message@,
            final(self).add_code_after@ == old(self).add_code_after@,
            final(self).crate_name@ == old(self).crate_name@,
            final(self).user_data == old(self).user_data,
    {
        let ghost av = after@;
        self.push_entry(
            SharedOutputEntry {
                filename: to_string(name),
                label: to_string(label),
                line,
                unique: false,
                after: Some(after),
            },
        );
    }
}

} // verus!
