use crate::halt::HaltCondition;
use crate::word::Word;
use vstd::prelude::*;

verus! {

/// The operand stack of one invocation. Its view lists the words from the
/// bottom up, so the top of the stack is the last entry. How deep the stack
/// may grow is for the machine around this layer to decide.
pub struct ValueStack {
    data: Vec<Word>,
}

impl View for ValueStack {
    type V = Seq<Word>;

    closed spec fn view(&self) -> Seq<Word> {
        self.data@
    }
}

impl ValueStack {
    /// An empty stack.
    pub fn new() -> (stack: ValueStack)
        ensures
            stack@ == Seq::<Word>::empty(),
    {
        ValueStack { data: Vec::new() }
    }

    /// The number of words on the stack.
    pub fn len(&self) -> (n: usize)
        ensures
            n == self@.len(),
    {
        self.data.len()
    }

    /// Puts `word` on top.
    pub fn push(&mut self, word: Word)
        ensures
            final(self)@ == old(self)@.push(word),
    {
        self.data.push(word);
    }

    /// Takes the top word off. An empty stack is left as it is and reported.
    pub fn pop(&mut self) -> (r: Result<Word, HaltCondition>)
        ensures
            old(self)@.len() >= 1 ==> r == Ok::<Word, HaltCondition>(old(self)@.last())
                && final(self)@ == old(self)@.drop_last(),
            old(self)@.len() == 0 ==> r == Err::<Word, HaltCondition>(
                HaltCondition::StackUnderflow,
            ) && final(self)@ == old(self)@,
    {
        match self.data.pop() {
            Some(word) => Ok(word),
            None => Err(HaltCondition::StackUnderflow),
        }
    }

    /// The top word, left in place.
    pub fn top(&self) -> (r: Result<Word, HaltCondition>)
        ensures
            self@.len() >= 1 ==> r == Ok::<Word, HaltCondition>(self@.last()),
            self@.len() == 0 ==> r == Err::<Word, HaltCondition>(HaltCondition::StackUnderflow),
    {
        let n = self.data.len();
        if n == 0 {
            Err(HaltCondition::StackUnderflow)
        } else {
            Ok(self.data[n - 1])
        }
    }

    /// Takes the top word off and hands it out together with the word below
    /// it, which stays on the stack as the new top. A stack of fewer than two
    /// words is left as it is and reported.
    pub fn pop_top(&mut self) -> (r: Result<(Word, Word), HaltCondition>)
        ensures
            old(self)@.len() >= 2 ==> r == Ok::<(Word, Word), HaltCondition>(
                (old(self)@[old(self)@.len() - 1], old(self)@[old(self)@.len() - 2]),
            ) && final(self)@ == old(self)@.drop_last(),
            old(self)@.len() < 2 ==> r == Err::<(Word, Word), HaltCondition>(
                HaltCondition::StackUnderflow,
            ) && final(self)@ == old(self)@,
    {
        let n = self.data.len();
        if n < 2 {
            return Err(HaltCondition::StackUnderflow);
        }
        let below = self.data[n - 2];
        match self.data.pop() {
            Some(top) => Ok((top, below)),
            None => Err(HaltCondition::StackUnderflow),
        }
    }

    /// Writes `word` over the top word. An empty stack is left as it is and
    /// reported.
    pub fn replace_top(&mut self, word: Word) -> (r: Result<(), HaltCondition>)
        ensures
            old(self)@.len() >= 1 ==> r == Ok::<(), HaltCondition>(()) && final(self)@ == old(
                self,
            )@.drop_last().push(word),
            old(self)@.len() == 0 ==> r == Err::<(), HaltCondition>(HaltCondition::StackUnderflow)
                && final(self)@ == old(self)@,
    {
        let n = self.data.len();
        if n == 0 {
            return Err(HaltCondition::StackUnderflow);
        }
        self.data.set(n - 1, word);
        assert(self.data@ =~= old(self).data@.drop_last().push(word));
        Ok(())
    }
}

} // verus!
