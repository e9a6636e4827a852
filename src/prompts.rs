//! The fixed instruction texts sent to the generation model.
use vstd::prelude::*;

verus! {

/// Opens the expansion prompt; the previous chunks follow it.
pub const EXPAND_INTRO: &'static str = "Jsi asistent pro zpracování textu. Tvým úkolem je rozšířit daný chunk textu pomocí jeho nejbližšího kontextu (předchozí a následující chunky). Cílem je zajistit, aby byl chunk srozumitelný a informativní i při samostatném použití, a to bez zbytečného opakování.

Vstup:
    Předchozí chunky:
    ";

/// Stands between the previous chunks and the chunk to expand.
pub const EXPAND_CURRENT: &'static str = "

    Aktuální chunk:
    ";

/// Stands between the chunk to expand and the next chunks.
pub const EXPAND_NEXT: &'static str = "

    Následující chunky:
    ";

/// Closes the expansion prompt.
pub const EXPAND_RULES: &'static str = "

Požadavky na výstup:
    Doplnění kontextu – Pokud aktuálnímu chunku chybí důležité informace (např. subjekty, události, definice), doplň je pomocí sousedních chunků.
    Konzistence – Zachovej styl a terminologii původního dokumentu.
    Stručnost – Chunk by měl být co nejkratší, ale zároveň obsahovat všechny klíčové informace.
    Koherence – Výstup by měl dávat smysl i bez přístupu k okolním chunkům.
    Neopakuj obsah – Nevkládej celé věty z okolních chunků, pouze doplň chybějící informace.

Výstup:
    Vytvoř přeformulovaný chunk, který zahrnuje potřebný kontext z předchozích a následujících částí textu. Nezahrnuj žádné informace, které nejsou obsaženy v poskytnutých textech.
";

/// The system instruction of every answer.
pub const SYSTEM_INSTRUCTION: &'static str = "Jsi AI pomocník pro odpovědi na dotazy z dodaných dokumentů interních směrnic a pravidel. Odpovídej co nejpřesněji podle dodaného textu. Používej historii konverzace k udržení kontextu, odpovídej strukturovaně a pokud v dodaném textu odpověď chybí, řekni to a nic si nevymýšlej.";

/// Opens the question prompt; the question follows it.
pub const ANSWER_QUESTION: &'static str = "Jsi pokročilý AI asistent, který odpovídá na otázky na základě poskytnutého kontextu.
Tvoje úloha je analyzovat poskytnuté informace a vybrat **pouze ty nejrelevantnější** pro odpověď.

**Otázka uživatele:**
";

/// Stands between the question and the retrieved context.
pub const ANSWER_CONTEXT: &'static str = "

**Poskytnuté informace (může obsahovat irelevantní části):**
";

/// Closes the question prompt.
pub const ANSWER_RULES: &'static str = "

**Instrukce pro odpověď:**
1. **Pečlivě vyhodnoť, které části poskytnutého textu jsou relevantní.** Nepoužívej irelevantní informace.
2. **Odpověz podrobně a strukturovaně.** Pokud je to vhodné, použij odstavce, seznamy nebo příklady.
3. **Nevyužívej žádné jiné znalosti mimo poskytnutý kontext a historii konverzace.**
4. **Pokud v poskytnutých informacích odpověď chybí, přiznej to.**

**Tvoje odpověď:**";

/// Opens the rephrasing prompt; the earlier turns follow it.
pub const REPHRASE_INTRO: &'static str = "Given the following conversation and a follow up question, rephrase the follow up question to be a standalone question, in its original language.

Chat History:
";

/// Stands between the earlier turns and the follow-up question.
pub const REPHRASE_QUESTION: &'static str = "
Follow Up Input: ";

/// Closes the rephrasing prompt.
pub const REPHRASE_END: &'static str = "
Standalone question:";

/// Separates the texts of neighbouring chunks.
pub const CHUNK_SEPARATOR: &'static str = "\n";

/// Separates the retrieved passages in the question prompt.
pub const CONTEXT_SEPARATOR: &'static str = "\n\n";

} // verus!
