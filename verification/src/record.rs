//! Data types for the change selector interface.
//!
//! A [`RecordState`] describes a set of files with their changed sections;
//! the selector toggles individual changes on or off, and
//! [`File::get_selected_contents`] splits the file into the contents that
//! were selected and the contents that were left behind.

use vstd::prelude::*;

verus! {

/// The Unix file mode. The special mode `0` indicates that the file did not
/// exist.
#[derive(Clone, Copy, Debug, Eq, Hash, PartialEq, PartialOrd, Ord, Structural)]
pub struct FileMode(pub usize);

impl FileMode {
    /// Get the file mode corresponding to an absent file. This typically
    /// indicates that the file was created (if the "before" mode) or deleted
    /// (if the "after" mode).
    pub fn absent() -> (r: Self)
        ensures
            r == (FileMode(0usize)),
    {
        Self(0)
    }
}

impl FileMode {
    /// The mode rendered in octal, as the UI shows it.
    pub fn mode_string(&self) -> (r: String)
        ensures
            r@ == crate::text::octal(self.0 as nat),
    {
        crate::text::format_octal_u64(self.0 as u64)
    }
}

impl From<usize> for FileMode {
    fn from(value: usize) -> (r: Self) {
        Self(value)
    }
}

impl vstd::std_specs::convert::FromSpecImpl<usize> for FileMode {
    open spec fn obeys_from_spec() -> bool {
        true
    }

    open spec fn from_spec(value: usize) -> Self {
        FileMode(value)
    }
}

impl From<FileMode> for usize {
    fn from(value: FileMode) -> (r: Self) {
        let FileMode(value) = value;
        value
    }
}

impl vstd::std_specs::convert::FromSpecImpl<FileMode> for usize {
    open spec fn obeys_from_spec() -> bool {
        true
    }

    open spec fn from_spec(value: FileMode) -> Self {
        value.0
    }
}

impl TryFrom<u32> for FileMode {
    type Error = core::num::TryFromIntError;

    fn try_from(value: u32) -> Result<Self, Self::Error> {
        match usize::try_from(value) {
            Ok(value) => Ok(Self(value)),
            Err(error) => Err(error),
        }
    }
}

impl vstd::std_specs::convert::TryFromSpecImpl<u32> for FileMode {
    open spec fn obeys_try_from_spec() -> bool {
        true
    }

    open spec fn try_from_spec(value: u32) -> Result<Self, Self::Error> {
        if value <= usize::MAX {
            Ok(FileMode(value as usize))
        } else {
            Err(arbitrary())
        }
    }
}

impl TryFrom<FileMode> for u32 {
    type Error = core::num::TryFromIntError;

    fn try_from(value: FileMode) -> Result<Self, Self::Error> {
        let FileMode(value) = value;
        match u32::try_from(value) {
            Ok(value) => Ok(value),
            Err(error) => Err(error),
        }
    }
}

impl vstd::std_specs::convert::TryFromSpecImpl<FileMode> for u32 {
    open spec fn obeys_try_from_spec() -> bool {
        true
    }

    open spec fn try_from_spec(value: FileMode) -> Result<Self, Self::Error> {
        if value.0 <= u32::MAX {
            Ok(value.0 as u32)
        } else {
            Err(arbitrary())
        }
    }
}

impl TryFrom<i32> for FileMode {
    type Error = core::num::TryFromIntError;

    fn try_from(value: i32) -> Result<Self, Self::Error> {
        match usize::try_from(value) {
            Ok(value) => Ok(Self(value)),
            Err(error) => Err(error),
        }
    }
}

impl vstd::std_specs::convert::TryFromSpecImpl<i32> for FileMode {
    open spec fn obeys_try_from_spec() -> bool {
        true
    }

    open spec fn try_from_spec(value: i32) -> Result<Self, Self::Error> {
        if 0 <= value {
            Ok(FileMode(value as usize))
        } else {
            Err(arbitrary())
        }
    }
}

impl TryFrom<FileMode> for i32 {
    type Error = core::num::TryFromIntError;

    fn try_from(value: FileMode) -> Result<Self, Self::Error> {
        let FileMode(value) = value;
        match i32::try_from(value) {
            Ok(value) => Ok(value),
            Err(error) => Err(error),
        }
    }
}

impl vstd::std_specs::convert::TryFromSpecImpl<FileMode> for i32 {
    open spec fn obeys_try_from_spec() -> bool {
        true
    }

    open spec fn try_from_spec(value: FileMode) -> Result<Self, Self::Error> {
        if value.0 <= i32::MAX {
            Ok(value.0 as i32)
        } else {
            Err(arbitrary())
        }
    }
}

/// The type of change in the patch/diff.
#[derive(Clone, Copy, Debug, Eq, Hash, Ord, PartialEq, PartialOrd, Structural)]
pub enum ChangeType {
    /// The line was added.
    Added,
    /// The line was removed.
    Removed,
}

/// A changed line inside a `Section`.
#[derive(Clone, Debug, Eq, PartialEq)]
pub struct SectionChangedLine {
    /// Whether or not this line was selected to be recorded.
    pub is_toggled: bool,
    /// The type of change this line was.
    pub change_type: ChangeType,
    /// The contents of the line, including its trailing newline
    /// character(s), if any.
    pub line: String,
}

/// The abstract value of a [`SectionChangedLine`].
pub struct SectionChangedLineView {
    /// Whether or not the line was selected.
    pub is_toggled: bool,
    /// The type of change.
    pub change_type: ChangeType,
    /// The contents of the line.
    pub line: Seq<char>,
}

impl View for SectionChangedLine {
    type V = SectionChangedLineView;

    open spec fn view(&self) -> SectionChangedLineView {
        SectionChangedLineView {
            is_toggled: self.is_toggled,
            change_type: self.change_type,
            line: self.line@,
        }
    }
}

impl DeepView for SectionChangedLine {
    type V = SectionChangedLineView;

    open spec fn deep_view(&self) -> SectionChangedLineView {
        self.view()
    }
}

/// A section of a file to be rendered and recorded.
#[derive(Clone, Debug, Eq, PartialEq)]
pub enum Section {
    /// This section of the file is unchanged and just used for context.
    ///
    /// By default, only part of the context will be shown. However, all of
    /// the context lines should be provided so that they can be used to
    /// globally number the lines correctly.
    Unchanged {
        /// The contents of the lines, including their trailing newline
        /// character(s), if any.
        lines: Vec<String>,
    },
    /// This section of the file is changed, and the user needs to select
    /// which specific changed lines to record.
    Changed {
        /// The contents of the lines, including their trailing newline
        /// character(s), if any.
        lines: Vec<SectionChangedLine>,
    },
    /// This indicates that the Unix file mode of the file changed, and that
    /// the user needs to accept that mode change or not. This is not part
    /// of the "contents" of the file per se, but it's rendered inline as if
    /// it were.
    FileMode {
        /// Whether or not the file mode change was accepted.
        is_toggled: bool,
        /// The old file mode.
        before: FileMode,
        /// The new file mode.
        after: FileMode,
    },
    /// This file contains binary contents.
    Binary {
        /// Whether or not the binary contents change was accepted.
        is_toggled: bool,
        /// The description of the old binary contents, for use in the UI
        /// only.
        old_description: Option<String>,
        /// The description of the new binary contents, for use in the UI
        /// only.
        new_description: Option<String>,
    },
}

/// The abstract value of a [`Section`].
pub enum SectionView {
    /// An unchanged context section.
    Unchanged { lines: Seq<Seq<char>> },
    /// A changed section with its selectable lines.
    Changed { lines: Seq<SectionChangedLineView> },
    /// A file mode change.
    FileMode { is_toggled: bool, before: FileMode, after: FileMode },
    /// A binary contents change.
    Binary {
        is_toggled: bool,
        old_description: Option<Seq<char>>,
        new_description: Option<Seq<char>>,
    },
}

/// The abstract value of an optional string.
pub open spec fn view_opt_str(s: Option<String>) -> Option<Seq<char>> {
    match s {
        Some(s) => Some(s@),
        None => None,
    }
}

impl View for Section {
    type V = SectionView;

    open spec fn view(&self) -> SectionView {
        match self {
            Section::Unchanged { lines } => SectionView::Unchanged {
                lines: lines.deep_view(),
            },
            Section::Changed { lines } => SectionView::Changed { lines: lines.deep_view() },
            Section::FileMode { is_toggled, before, after } => SectionView::FileMode {
                is_toggled: *is_toggled,
                before: *before,
                after: *after,
            },
            Section::Binary { is_toggled, old_description, new_description } => SectionView::Binary {
                is_toggled: *is_toggled,
                old_description: view_opt_str(*old_description),
                new_description: view_opt_str(*new_description),
            },
        }
    }
}

impl Section {
    /// Whether or not this section contains user-editable content (as
    /// opposed to simply contextual content).
    pub fn is_editable(&self) -> (r: bool)
        ensures
            r == !(self@ is Unchanged),
    {
        match self {
            Section::Unchanged { .. } => false,
            Section::Changed { .. } | Section::FileMode { .. } | Section::Binary { .. } => true,
        }
    }
}

/// The contents of a file selected as part of the record operation.
#[derive(Clone, Debug, Hash, Eq, PartialEq, PartialOrd, Ord)]
pub enum SelectedContents {
    /// The file didn't exist or was deleted.
    Absent,
    /// The file contents have not changed.
    Unchanged,
    /// The file contains binary contents.
    Binary {
        /// The UI description of the old version of the file.
        old_description: Option<String>,
        /// The UI description of the new version of the file.
        new_description: Option<String>,
    },
    /// The file contained the following text contents.
    Present {
        /// The contents of the file.
        contents: String,
    },
}

/// The abstract value of a [`SelectedContents`].
pub enum SelectedContentsView {
    /// The file didn't exist or was deleted.
    Absent,
    /// The file contents have not changed.
    Unchanged,
    /// The file contains binary contents.
    Binary { old_description: Option<Seq<char>>, new_description: Option<Seq<char>> },
    /// The file contained the given text contents.
    Present { contents: Seq<char> },
}

impl View for SelectedContents {
    type V = SelectedContentsView;

    open spec fn view(&self) -> SelectedContentsView {
        match self {
            SelectedContents::Absent => SelectedContentsView::Absent,
            SelectedContents::Unchanged => SelectedContentsView::Unchanged,
            SelectedContents::Binary { old_description, new_description } => {
                SelectedContentsView::Binary {
                    old_description: view_opt_str(*old_description),
                    new_description: view_opt_str(*new_description),
                }
            },
            SelectedContents::Present { contents } => SelectedContentsView::Present {
                contents: contents@,
            },
        }
    }
}

impl SelectedContentsView {
    /// The contents after appending `s`: binary contents ignore the text,
    /// absent or unchanged contents become exactly `s`, and present
    /// contents grow by `s`.
    pub open spec fn with_pushed(self, s: Seq<char>) -> SelectedContentsView {
        match self {
            SelectedContentsView::Absent | SelectedContentsView::Unchanged => {
                SelectedContentsView::Present { contents: s }
            },
            SelectedContentsView::Binary { .. } => self,
            SelectedContentsView::Present { contents } => SelectedContentsView::Present {
                contents: contents + s,
            },
        }
    }
}

impl SelectedContents {
    /// Append `s` to the accumulated contents.
    pub fn push_str(&mut self, s: &str)
        ensures
            final(self)@ == old(self)@.with_pushed(s@),
    {
        match self {
            SelectedContents::Absent | SelectedContents::Unchanged => {
                *self = SelectedContents::Present { contents: s.to_owned() };
            },
            SelectedContents::Binary { old_description: _, new_description: _ } => {
                // Do nothing.
            },
            SelectedContents::Present { contents } => {
                contents.append(s);
            },
        }
    }
}

impl DeepView for Section {
    type V = SectionView;

    open spec fn deep_view(&self) -> SectionView {
        self.view()
    }
}

/// The state of a file to be recorded.
#[derive(Clone, Debug, Eq, PartialEq)]
pub struct File {
    /// The path to the file.
    pub path: String,
    /// The Unix file mode of the file (before any changes), if available.
    /// This may be rendered by the UI.
    ///
    /// This value is not directly modified by the UI; instead, construct a
    /// [`Section::FileMode`] and use the [`File::get_file_mode`] function
    /// to read a user-provided update to the file mode.
    pub file_mode: Option<FileMode>,
    /// The set of [`Section`]s inside the file.
    pub sections: Vec<Section>,
}

/// The abstract value of a [`File`].
pub struct FileView {
    /// The path to the file.
    pub path: Seq<char>,
    /// The file mode before any changes, if available.
    pub file_mode: Option<FileMode>,
    /// The sections of the file.
    pub sections: Seq<SectionView>,
}

impl View for File {
    type V = FileView;

    open spec fn view(&self) -> FileView {
        FileView {
            path: self.path@,
            file_mode: self.file_mode,
            sections: self.sections.deep_view(),
        }
    }
}

/// The file mode of the first toggled file-mode section, if any.
pub open spec fn toggled_file_mode(sections: Seq<SectionView>) -> Option<FileMode>
    decreases sections.len(),
{
    if sections.len() == 0 {
        None
    } else {
        match sections[0] {
            SectionView::FileMode { is_toggled, before, after } => {
                if is_toggled {
                    Some(after)
                } else {
                    toggled_file_mode(sections.drop_first())
                }
            },
            _ => toggled_file_mode(sections.drop_first()),
        }
    }
}

/// A changed line goes into the selected contents when it was an addition
/// that was toggled on, or a removal that was toggled off.
pub open spec fn line_is_selected(line: SectionChangedLineView) -> bool {
    (line.change_type == ChangeType::Added) == line.is_toggled
}

/// Append every line in turn to the accumulated contents.
pub open spec fn push_lines(acc: SelectedContentsView, lines: Seq<Seq<char>>) -> SelectedContentsView
    decreases lines.len(),
{
    if lines.len() == 0 {
        acc
    } else {
        push_lines(acc.with_pushed(lines[0]), lines.drop_first())
    }
}

/// Distribute each changed line to the selected or unselected contents.
pub open spec fn push_changed_lines(
    accs: (SelectedContentsView, SelectedContentsView),
    lines: Seq<SectionChangedLineView>,
) -> (SelectedContentsView, SelectedContentsView)
    decreases lines.len(),
{
    if lines.len() == 0 {
        accs
    } else {
        let next = if line_is_selected(lines[0]) {
            (accs.0.with_pushed(lines[0].line), accs.1)
        } else {
            (accs.0, accs.1.with_pushed(lines[0].line))
        };
        push_changed_lines(next, lines.drop_first())
    }
}

/// How one section transforms the accumulated (selected, unselected)
/// contents.
pub open spec fn apply_section(
    accs: (SelectedContentsView, SelectedContentsView),
    section: SectionView,
) -> (SelectedContentsView, SelectedContentsView) {
    match section {
        SectionView::Unchanged { lines } => (push_lines(accs.0, lines), push_lines(accs.1, lines)),
        SectionView::Changed { lines } => push_changed_lines(accs, lines),
        SectionView::FileMode { is_toggled, before, after } => {
            if is_toggled && after == (FileMode(0usize)) {
                (SelectedContentsView::Absent, accs.1)
            } else if !is_toggled && before == (FileMode(0usize)) {
                (accs.0, SelectedContentsView::Absent)
            } else {
                accs
            }
        },
        SectionView::Binary { is_toggled, old_description, new_description } => {
            let contents = SelectedContentsView::Binary { old_description, new_description };
            if is_toggled {
                (contents, accs.1)
            } else {
                (accs.0, contents)
            }
        },
    }
}

/// The accumulated (selected, unselected) contents after applying every
/// section in turn.
pub open spec fn selected_after(
    accs: (SelectedContentsView, SelectedContentsView),
    sections: Seq<SectionView>,
) -> (SelectedContentsView, SelectedContentsView)
    decreases sections.len(),
{
    if sections.len() == 0 {
        accs
    } else {
        selected_after(apply_section(accs, sections[0]), sections.drop_first())
    }
}

/// The (selected, unselected) contents of a file with the given sections.
pub open spec fn selected_contents_of(
    sections: Seq<SectionView>,
) -> (SelectedContentsView, SelectedContentsView) {
    selected_after((SelectedContentsView::Unchanged, SelectedContentsView::Unchanged), sections)
}

/// Clone an optional string.
fn clone_opt_string(s: &Option<String>) -> (r: Option<String>)
    ensures
        r == *s,
{
    match s {
        Some(s) => Some(s.clone()),
        None => None,
    }
}

impl File {
    /// Get the new Unix file mode. If the user selected a
    /// [`Section::FileMode`], then returns that file mode. Otherwise,
    /// returns the `file_mode` value that this [`File`] was constructed
    /// with.
    pub fn get_file_mode(&self) -> (r: Option<FileMode>)
        ensures
            r == match toggled_file_mode(self@.sections) {
                Some(mode) => Some(mode),
                None => self.file_mode,
            },
    {
        let n = self.sections.len();
        let mut i: usize = 0;
        proof {
            assert(self@.sections.skip(0) =~= self@.sections);
        }
        while i < n
            invariant
                i <= n,
                n == self.sections.len(),
                toggled_file_mode(self@.sections.skip(i as int)) == toggled_file_mode(
                    self@.sections,
                ),
            decreases n - i,
        {
            proof {
                assert(self@.sections.skip(i as int).drop_first() =~= self@.sections.skip(
                    i as int + 1,
                ));
                assert(self@.sections.skip(i as int)[0] == self@.sections[i as int]);
            }
            match &self.sections[i] {
                Section::FileMode { is_toggled, before: _, after } => {
                    if *is_toggled {
                        return Some(*after);
                    }
                },
                _ => {},
            }
            i = i + 1;
        }
        proof {
            assert(self@.sections.skip(n as int) =~= Seq::<SectionView>::empty());
        }
        self.file_mode
    }

    /// Calculate the `(selected, unselected)` contents of the file. For
    /// example, the first value would be suitable for staging or
    /// committing, and the second value would be suitable for potentially
    /// recording again.
    pub fn get_selected_contents(&self) -> (r: (SelectedContents, SelectedContents))
        ensures
            (r.0@, r.1@) == selected_contents_of(self@.sections),
    {
        let mut acc_selected = SelectedContents::Unchanged;
        let mut acc_unselected = SelectedContents::Unchanged;
        let n = self.sections.len();
        let mut i: usize = 0;
        proof {
            assert(self@.sections.skip(0) =~= self@.sections);
        }
        while i < n
            invariant
                i <= n,
                n == self.sections.len(),
                selected_after((acc_selected@, acc_unselected@), self@.sections.skip(i as int))
                    == selected_contents_of(self@.sections),
            decreases n - i,
        {
            proof {
                assert(self@.sections.skip(i as int).drop_first() =~= self@.sections.skip(
                    i as int + 1,
                ));
                assert(self@.sections.skip(i as int)[0] == self@.sections[i as int]);
            }
            match &self.sections[i] {
                Section::Unchanged { lines } => {
                    let ghost entry = (acc_selected@, acc_unselected@);
                    let ghost lv = lines.deep_view();
                    let m = lines.len();
                    let mut j: usize = 0;
                    proof {
                        assert(lv.skip(0) =~= lv);
                    }
                    while j < m
                        invariant
                            j <= m,
                            m == lines.len(),
                            lv == lines.deep_view(),
                            push_lines(acc_selected@, lv.skip(j as int)) == push_lines(
                                entry.0,
                                lv,
                            ),
                            push_lines(acc_unselected@, lv.skip(j as int)) == push_lines(
                                entry.1,
                                lv,
                            ),
                        decreases m - j,
                    {
                        proof {
                            assert(lv.skip(j as int).drop_first() =~= lv.skip(j as int + 1));
                            assert(lv.skip(j as int)[0] == lv[j as int]);
                        }
                        acc_selected.push_str(lines[j].as_str());
                        acc_unselected.push_str(lines[j].as_str());
                        j = j + 1;
                    }
                    proof {
                        assert(lv.skip(m as int) =~= Seq::<Seq<char>>::empty());
                    }
                },
                Section::Changed { lines } => {
                    let ghost entry = (acc_selected@, acc_unselected@);
                    let ghost lv = lines.deep_view();
                    let m = lines.len();
                    let mut j: usize = 0;
                    proof {
                        assert(lv.skip(0) =~= lv);
                    }
                    while j < m
                        invariant
                            j <= m,
                            m == lines.len(),
                            lv == lines.deep_view(),
                            push_changed_lines(
                                (acc_selected@, acc_unselected@),
                                lv.skip(j as int),
                            ) == push_changed_lines(entry, lv),
                        decreases m - j,
                    {
                        proof {
                            assert(lv.skip(j as int).drop_first() =~= lv.skip(j as int + 1));
                            assert(lv.skip(j as int)[0] == lv[j as int]);
                        }
                        let line = &lines[j];
                        match (&line.change_type, line.is_toggled) {
                            (ChangeType::Added, true) | (ChangeType::Removed, false) => {
                                acc_selected.push_str(line.line.as_str());
                            },
                            (ChangeType::Added, false) | (ChangeType::Removed, true) => {
                                acc_unselected.push_str(line.line.as_str());
                            },
                        }
                        j = j + 1;
                    }
                    proof {
                        assert(lv.skip(m as int) =~= Seq::<SectionChangedLineView>::empty());
                    }
                },
                Section::FileMode { is_toggled, before, after } => {
                    if *is_toggled && *after == FileMode::absent() {
                        acc_selected = SelectedContents::Absent;
                    } else if !*is_toggled && *before == FileMode::absent() {
                        acc_unselected = SelectedContents::Absent;
                    }
                },
                Section::Binary { is_toggled, old_description, new_description } => {
                    let selected_contents = SelectedContents::Binary {
                        old_description: clone_opt_string(old_description),
                        new_description: clone_opt_string(new_description),
                    };
                    if *is_toggled {
                        acc_selected = selected_contents;
                    } else {
                        acc_unselected = selected_contents;
                    }
                },
            }
            i = i + 1;
        }
        proof {
            assert(self@.sections.skip(n as int) =~= Seq::<SectionView>::empty());
        }
        (acc_selected, acc_unselected)
    }
}

/// The state used to render the changes. This is passed into the change
/// selector and then updated and returned once the user has made their
/// selections.
#[derive(Clone, Debug, Eq, PartialEq)]
pub struct RecordState {
    /// The state of each file. This is rendered in order, so you may want
    /// to sort this list by path before providing it.
    pub files: Vec<File>,
}

impl Default for RecordState {
    /// An empty record state with no files.
    fn default() -> (r: Self)
        ensures
            r.files@ == Seq::<File>::empty(),
    {
        RecordState { files: Vec::new() }
    }
}

} // verus!
