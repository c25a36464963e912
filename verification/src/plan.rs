//! The plan of a run: the files found in the input folder, grouped by
//! category, and the number of steps the run will take.
use crate::category::{category_for, category_of_path, Category};
use vstd::prelude::*;

verus! {

broadcast use vstd::seq_lib::group_seq_properties;

/// A file found in the input folder.
pub struct Entry {
    /// Where the file is.
    pub source: String,
    /// Its path relative to the input folder.
    pub relative: String,
}

/// The source and relative path of an entry.
pub open spec fn entry_view(e: Entry) -> (Seq<char>, Seq<char>) {
    (e.source@, e.relative@)
}

/// The files found, grouped by category in the order they were found.
pub struct Plan {
    images: Vec<Entry>,
    videos: Vec<Entry>,
    audio: Vec<Entry>,
    documents: Vec<Entry>,
    other: Vec<Entry>,
}

/// One step of a run: processing one image or video, or writing one archive.
#[derive(Clone, Copy, Debug, PartialEq, Eq, Structural)]
pub enum Step {
    /// The file at `index` in the group of `category`.
    Media { category: Category, index: usize },
    /// The archive of `category`.
    Archive(Category),
}

/// The steps for the `n` files of the media category `c`, in order.
pub open spec fn media_steps(c: Category, n: nat) -> Seq<Step> {
    Seq::new(n, |i: int| Step::Media { category: c, index: i as usize })
}

/// The step writing the archive of `c`, when its group has any of its `n` files.
pub open spec fn archive_step(c: Category, n: nat) -> Seq<Step> {
    if n > 0 {
        seq![Step::Archive(c)]
    } else {
        Seq::empty()
    }
}

/// Appends the steps for the first `n` files of `c`.
fn push_media_steps(out: &mut Vec<Step>, c: Category, n: usize)
    ensures
        final(out)@ == old(out)@ + media_steps(c, n as nat),
{
    let ghost start = out@;
    let mut i: usize = 0;
    while i < n
        invariant
            i <= n,
            out@ == start + media_steps(c, i as nat),
        decreases n - i,
    {
        out.push(Step::Media { category: c, index: i });
        assert(media_steps(c, (i + 1) as nat) =~= media_steps(c, i as nat).push(
            Step::Media { category: c, index: i },
        ));
        i = i + 1;
    }
}

/// Appends the archive step of `c` when its group of `n` files is not empty.
fn push_archive_step(out: &mut Vec<Step>, c: Category, n: usize)
    ensures
        final(out)@ == old(out)@ + archive_step(c, n as nat),
{
    if n > 0 {
        out.push(Step::Archive(c));
    }
    assert(out@ =~= old(out)@ + archive_step(c, n as nat));
}

/// Whether a group has any file, as a count of 0 or 1.
pub open spec fn any(n: nat) -> nat {
    if n > 0 {
        1
    } else {
        0
    }
}

impl Plan {
    /// The files of category `c`, as (source, relative path) pairs.
    pub closed spec fn files(&self, c: Category) -> Seq<(Seq<char>, Seq<char>)> {
        match c {
            Category::Images => self.images@.map_values(|e: Entry| entry_view(e)),
            Category::Videos => self.videos@.map_values(|e: Entry| entry_view(e)),
            Category::Audio => self.audio@.map_values(|e: Entry| entry_view(e)),
            Category::Documents => self.documents@.map_values(|e: Entry| entry_view(e)),
            Category::Other => self.other@.map_values(|e: Entry| entry_view(e)),
        }
    }

    /// Number of files of category `c`.
    pub open spec fn count(&self, c: Category) -> nat {
        self.files(c).len()
    }

    /// Number of files in all.
    pub open spec fn file_count(&self) -> nat {
        self.count(Category::Images) + self.count(Category::Videos) + self.count(Category::Audio)
            + self.count(Category::Documents) + self.count(Category::Other)
    }

    /// Number of archives the run writes: one for each archived category with files.
    pub open spec fn archive_total(&self) -> nat {
        any(self.count(Category::Audio)) + any(self.count(Category::Documents)) + any(
            self.count(Category::Other),
        )
    }

    /// Number of steps of the run: one per image, one per video, one per archive.
    pub open spec fn step_total(&self) -> nat {
        self.count(Category::Images) + self.count(Category::Videos) + self.archive_total()
    }

    /// The steps of the run, in order: every image, then every video, each in
    /// the order found, then the archives of audio, documents and other files,
    /// leaving out those without files.
    pub open spec fn step_sequence(&self) -> Seq<Step> {
        media_steps(Category::Images, self.count(Category::Images)) + media_steps(
            Category::Videos,
            self.count(Category::Videos),
        ) + archive_step(Category::Audio, self.count(Category::Audio)) + archive_step(
            Category::Documents,
            self.count(Category::Documents),
        ) + archive_step(Category::Other, self.count(Category::Other))
    }

    /// The run writes one archive for each category stored in an archive (audio,
    /// documents, other files) that has files, and no other: the steps hold
    /// `Archive(c)` exactly when `c` is archived and its group is not empty.
    pub proof fn law_archive_steps(&self, c: Category)
        ensures
            self.step_sequence().contains(Step::Archive(c)) <==> (c.is_archived() && self.count(c)
                > 0),
    {
        let s = self.step_sequence();
        let m = media_steps(Category::Images, self.count(Category::Images)) + media_steps(
            Category::Videos,
            self.count(Category::Videos),
        );
        let a1 = archive_step(Category::Audio, self.count(Category::Audio));
        let a2 = archive_step(Category::Documents, self.count(Category::Documents));
        let a3 = archive_step(Category::Other, self.count(Category::Other));
        assert(s == m + a1 + a2 + a3);
        if c.is_archived() && self.count(c) > 0 {
            let k: int = match c {
                Category::Audio => m.len() as int,
                Category::Documents => (m.len() + a1.len()) as int,
                _ => (m.len() + a1.len() + a2.len()) as int,
            };
            assert(s[k] == Step::Archive(c));
        }
        if s.contains(Step::Archive(c)) {
            let i = choose|i: int| 0 <= i < s.len() && s[i] == Step::Archive(c);
            if i < m.len() {
                assert(s[i] == m[i]);
                assert(m[i] is Media);
            } else if i < m.len() + a1.len() {
                assert(s[i] == a1[i - m.len()]);
            } else if i < m.len() + a1.len() + a2.len() {
                assert(s[i] == a2[i - m.len() - a1.len()]);
            } else {
                assert(s[i] == a3[i - m.len() - a1.len() - a2.len()]);
            }
        }
    }

    /// Every image and every video is one step of its own, named by its place in
    /// its group, and files stored in archives get no such step: the steps hold
    /// `Media { category: c, index: i }` exactly when `c` is images or videos and
    /// `i` is below the number of its files.
    pub proof fn law_media_steps(&self, c: Category, i: usize)
        ensures
            self.step_sequence().contains(Step::Media { category: c, index: i }) <==> ((c is Images
                || c is Videos) && i < self.count(c)),
    {
        let s = self.step_sequence();
        let ni = self.count(Category::Images);
        let nv = self.count(Category::Videos);
        let mi = media_steps(Category::Images, ni);
        let mv = media_steps(Category::Videos, nv);
        let a = archive_step(Category::Audio, self.count(Category::Audio)) + archive_step(
            Category::Documents,
            self.count(Category::Documents),
        ) + archive_step(Category::Other, self.count(Category::Other));
        assert(s == mi + mv + a);
        let x = Step::Media { category: c, index: i };
        if (c is Images || c is Videos) && i < self.count(c) {
            if c is Images {
                assert(s[i as int] == x);
            } else {
                assert(s[ni + i] == x);
            }
        }
        if s.contains(x) {
            let j = choose|j: int| 0 <= j < s.len() && s[j] == x;
            if j < ni {
                assert(s[j] == mi[j]);
            } else if j < ni + nv {
                assert(s[j] == mv[j - ni]);
            } else {
                assert(s[j] == a[j - ni - nv]);
                assert(a[j - ni - nv] is Archive);
            }
        }
    }

    #[verifier::type_invariant]
    spec fn fits(self) -> bool {
        self.images.len() + self.videos.len() + self.audio.len() + self.documents.len()
            + self.other.len() <= usize::MAX - 3
    }

    /// The lengths of the groups are the counts.
    proof fn lemma_counts(&self)
        ensures
            self.count(Category::Images) == self.images.len(),
            self.count(Category::Videos) == self.videos.len(),
            self.count(Category::Audio) == self.audio.len(),
            self.count(Category::Documents) == self.documents.len(),
            self.count(Category::Other) == self.other.len(),
    {
    }

    /// A plan with no files.
    pub fn new() -> (r: Plan)
        ensures
            forall|c: Category| r.files(c).len() == 0,
    {
        Plan {
            images: Vec::new(),
            videos: Vec::new(),
            audio: Vec::new(),
            documents: Vec::new(),
            other: Vec::new(),
        }
    }

    /// Number of files in all.
    pub fn total(&self) -> (n: usize)
        ensures
            n == self.file_count(),
    {
        proof {
            use_type_invariant(self);
            self.lemma_counts();
        }
        self.images.len() + self.videos.len() + self.audio.len() + self.documents.len()
            + self.other.len()
    }

    /// Adds the file at `source`, found at `relative`, to the group of its
    /// category, which it returns.
    pub fn add(&mut self, source: String, relative: String) -> (c: Category)
        requires
            old(self).file_count() < usize::MAX - 3,
        ensures
            c == category_of_path(source@),
            final(self).files(c) == old(self).files(c).push((source@, relative@)),
            forall|d: Category| d != c ==> final(self).files(d) == old(self).files(d),
            final(self).file_count() == old(self).file_count() + 1,
    {
        proof {
            use_type_invariant(&*self);
            self.lemma_counts();
        }
        let c = category_for(source.as_str());
        let entry = Entry { source, relative };
        let ghost old_files = self.files(c);
        let mut group = self.take(c);
        let ghost before = group@;
        group.push(entry);
        assert(group@.map_values(|e: Entry| entry_view(e)) =~= before.map_values(
            |e: Entry| entry_view(e),
        ).push(entry_view(entry)));
        self.put(c, group);
        c
    }

    /// Gives the emptied group of category `c` the files `group`.
    fn put(&mut self, c: Category, group: Vec<Entry>)
        requires
            old(self).files(c).len() == 0,
            old(self).file_count() + group.len() <= usize::MAX - 3,
        ensures
            final(self).files(c) == group@.map_values(|e: Entry| entry_view(e)),
            forall|d: Category| d != c ==> final(self).files(d) == old(self).files(d),
    {
        proof {
            use_type_invariant(&*self);
            self.lemma_counts();
        }
        let mut group = group;
        match c {
            Category::Images => std::mem::swap(&mut group, &mut self.images),
            Category::Videos => std::mem::swap(&mut group, &mut self.videos),
            Category::Audio => std::mem::swap(&mut group, &mut self.audio),
            Category::Documents => std::mem::swap(&mut group, &mut self.documents),
            Category::Other => std::mem::swap(&mut group, &mut self.other),
        }
    }

    /// The files of category `c`, in the order they were found.
    pub fn entries(&self, c: Category) -> (r: &Vec<Entry>)
        ensures
            r@.map_values(|e: Entry| entry_view(e)) == self.files(c),
    {
        match c {
            Category::Images => &self.images,
            Category::Videos => &self.videos,
            Category::Audio => &self.audio,
            Category::Documents => &self.documents,
            Category::Other => &self.other,
        }
    }

    /// Removes the files of category `c` from the plan and returns them.
    pub fn take(&mut self, c: Category) -> (r: Vec<Entry>)
        ensures
            r@.map_values(|e: Entry| entry_view(e)) == old(self).files(c),
            final(self).files(c).len() == 0,
            forall|d: Category| d != c ==> final(self).files(d) == old(self).files(d),
    {
        proof {
            use_type_invariant(&*self);
        }
        let mut taken: Vec<Entry> = Vec::new();
        match c {
            Category::Images => std::mem::swap(&mut taken, &mut self.images),
            Category::Videos => std::mem::swap(&mut taken, &mut self.videos),
            Category::Audio => std::mem::swap(&mut taken, &mut self.audio),
            Category::Documents => std::mem::swap(&mut taken, &mut self.documents),
            Category::Other => std::mem::swap(&mut taken, &mut self.other),
        }
        taken
    }

    /// Number of archives the run writes.
    pub fn archive_count(&self) -> (n: usize)
        ensures
            n == self.archive_total(),
    {
        proof {
            self.lemma_counts();
        }
        let mut n: usize = 0;
        if self.audio.len() > 0 {
            n = n + 1;
        }
        if self.documents.len() > 0 {
            n = n + 1;
        }
        if self.other.len() > 0 {
            n = n + 1;
        }
        n
    }

    /// Number of steps of the run: one per image, one per video, one per archive.
    pub fn work_total(&self) -> (n: usize)
        ensures
            n == self.step_total(),
    {
        proof {
            use_type_invariant(self);
            self.lemma_counts();
        }
        self.images.len() + self.videos.len() + self.archive_count()
    }

    /// The steps of the run, in order; there are as many as the run announces.
    pub fn steps(&self) -> (r: Vec<Step>)
        ensures
            r@ == self.step_sequence(),
            r.len() == self.step_total(),
            forall|c: Category|
                #[trigger] r@.contains(Step::Archive(c)) <==> (c.is_archived() && self.count(c)
                    > 0),
    {
        proof {
            self.lemma_counts();
        }
        let mut r: Vec<Step> = Vec::new();
        push_media_steps(&mut r, Category::Images, self.images.len());
        push_media_steps(&mut r, Category::Videos, self.videos.len());
        push_archive_step(&mut r, Category::Audio, self.audio.len());
        push_archive_step(&mut r, Category::Documents, self.documents.len());
        push_archive_step(&mut r, Category::Other, self.other.len());
        assert(r@ =~= self.step_sequence());
        assert forall|c: Category|
            #[trigger] r@.contains(Step::Archive(c)) <==> (c.is_archived() && self.count(c)
                > 0) by {
            self.law_archive_steps(c);
        }
        r
    }
}

} // verus!
