//! Dutch SEO content for a project: title, meta description, slug,
//! keywords, alt texts, Markdown body and its HTML rendering.
use vstd::prelude::*;

use crate::models::{Media, Project, ProjectType, Seo, SeoStatus};
use crate::sorting::{
    lemma_lex_asymmetric, lemma_lex_irreflexive, lex_lt, sort_dedup_set, sorted_set,
    sorted_set_of, strictly_sorted,
};
use crate::trusted::{
    format_rfc3339_month_year, new_uuid_string, now_rfc3339, rfc3339_month_year, slug_of, slugify,
};
use crate::text::{
    chars_of, find, find_seq, occurs_at, push_chars, push_str, slice_vec, starts_with, starts_with_seq, string_of,
    trim_end_seq, trim_end_vec, trim_seq, trim_vec, decimal, join_seq, join_strings, lowercase_of,
    push_decimal, string_views, to_lowercase, all_ascii, ascii_lower, boundary_index, is_byte_boundary,
    json_string, push_json_string, utf8_len, utf8_len_exec,
    boundary_index_exec, word_count, word_count_exec, is_byte_boundary_exec,
};

verus! {

// ---------------------------------------------------------------------------
// Inline bold and Markdown → HTML
// ---------------------------------------------------------------------------

pub open spec fn bold_marker() -> Seq<char> {
    seq!['*', '*']
}

/// The first `**...**` pair becomes `<strong>...</strong>`; an unmatched
/// opening `**` and everything after the first pair are kept as they are.
pub open spec fn bold_spec(s: Seq<char>) -> Seq<char> {
    match find_seq(s, bold_marker()) {
        None => s,
        Some(i) => {
            let rest = s.skip(i + 2);
            s.take(i) + match find_seq(rest, bold_marker()) {
                Some(e) => "<strong>"@ + rest.take(e) + "</strong>"@ + rest.skip(e + 2),
                None => "**"@ + rest,
            }
        },
    }
}

/// Replaces the first `**text**` of `s` with `<strong>text</strong>`.
pub fn bold_inline(s: &str) -> (out: String)
    ensures
        out@ == bold_spec(s@),
{
    let v = chars_of(s);
    bold_chars(&v)
}

fn bold_chars(v: &[char]) -> (out: String)
    ensures
        out@ == bold_spec(v@),
{
    let marker = ['*', '*'];
    assert(marker@ == bold_marker());
    match find(v, &marker) {
        None => string_of(v),
        Some(i) => {
            assert(occurs_at(v@, marker@, i as int));
            assert(marker@.len() == 2);
            assert(i + 2 <= v.len());
            let mut out = string_of(&slice_vec(v, 0, i));
            let rest = slice_vec(v, i + 2, v.len());
            assert(rest@ == v@.skip(i + 2));
            match find(&rest, &marker) {
                Some(e) => {
                    assert(occurs_at(rest@, marker@, e as int));
                    push_str(&mut out, "<strong>");
                    push_chars(&mut out, &slice_vec(&rest, 0, e));
                    push_str(&mut out, "</strong>");
                    push_chars(&mut out, &slice_vec(&rest, e + 2, rest.len()));
                    assert(rest@.subrange(0, e as int) == rest@.take(e as int));
                    assert(rest@.subrange(e + 2, rest@.len() as int) == rest@.skip(e + 2));
                },
                None => {
                    push_str(&mut out, "**");
                    push_chars(&mut out, &rest);
                },
            }
            assert(v@.subrange(0, i as int) == v@.take(i as int));
            out
        },
    }
}

/// The lines of `s` finished so far (split at `\n`) and the unfinished
/// last line.
pub open spec fn lines_acc(s: Seq<char>) -> (Seq<Seq<char>>, Seq<char>)
    decreases s.len(),
{
    if s.len() == 0 {
        (seq![], seq![])
    } else {
        let (ls, cur) = lines_acc(s.drop_last());
        if s.last() == '\n' {
            (ls.push(cur), seq![])
        } else {
            (ls, cur.push(s.last()))
        }
    }
}

/// The lines of `s` as `str::lines` yields them, up to a `\r` before each
/// `\n` (which the rendering below removes with the trailing whitespace).
pub open spec fn lines_of(s: Seq<char>) -> Seq<Seq<char>> {
    let (ls, cur) = lines_acc(s);
    if cur.len() > 0 {
        ls.push(cur)
    } else {
        ls
    }
}

pub open spec fn h1_prefix() -> Seq<char> {
    seq!['#', ' ']
}

pub open spec fn h2_prefix() -> Seq<char> {
    seq!['#', '#', ' ']
}

pub open spec fn li_prefix() -> Seq<char> {
    seq!['-', ' ']
}

/// Rendering of one line given the HTML so far and whether a list is open.
pub open spec fn html_step(st: (Seq<char>, bool), line: Seq<char>) -> (Seq<char>, bool) {
    let h = st.0;
    let ul = st.1;
    let t = trim_end_seq(line);
    let close = if ul {
        "</ul>\n"@
    } else {
        Seq::<char>::empty()
    };
    if t.len() == 0 {
        (h + close + "<p></p>\n"@, false)
    } else if starts_with_seq(t, h1_prefix()) {
        (h + "<h1>"@ + trim_seq(t.skip(2)) + "</h1>\n"@, ul)
    } else if starts_with_seq(t, h2_prefix()) {
        (h + "<h2>"@ + trim_seq(t.skip(3)) + "</h2>\n"@, ul)
    } else if starts_with_seq(t, li_prefix()) {
        let open = if ul {
            Seq::<char>::empty()
        } else {
            "<ul>\n"@
        };
        (h + open + "<li>"@ + bold_spec(t.skip(2)) + "</li>\n"@, true)
    } else {
        (h + close + "<p>"@ + bold_spec(t) + "</p>\n"@, false)
    }
}

pub open spec fn html_lines(lines: Seq<Seq<char>>) -> (Seq<char>, bool)
    decreases lines.len(),
{
    if lines.len() == 0 {
        (Seq::<char>::empty(), false)
    } else {
        html_step(html_lines(lines.drop_last()), lines.last())
    }
}

/// HTML for the Markdown subset the generator writes: `# `, `## ` headings,
/// `- ` list items, paragraphs, and one bold span per line.
pub open spec fn html_spec(md: Seq<char>) -> Seq<char> {
    let st = html_lines(lines_of(md));
    if st.1 {
        st.0 + "</ul>\n"@
    } else {
        st.0
    }
}

fn render_line(html: &mut String, in_ul: &mut bool, line: &[char])
    ensures
        (final(html)@, *final(in_ul)) == html_step((old(html)@, *old(in_ul)), line@),
{
    let t = trim_end_vec(line);
    let h1 = ['#', ' '];
    let h2 = ['#', '#', ' '];
    let li = ['-', ' '];
    assert(h1@ == h1_prefix());
    assert(h2@ == h2_prefix());
    assert(li@ == li_prefix());
    if t.len() == 0 {
        if *in_ul {
            push_str(html, "</ul>\n");
            *in_ul = false;
        }
        push_str(html, "<p></p>\n");
    } else if starts_with(&t, &h1) {
        push_str(html, "<h1>");
        push_chars(html, &trim_vec(&slice_vec(&t, 2, t.len())));
        push_str(html, "</h1>\n");
        assert(t@.subrange(2, t@.len() as int) == t@.skip(2));
    } else if starts_with(&t, &h2) {
        push_str(html, "<h2>");
        push_chars(html, &trim_vec(&slice_vec(&t, 3, t.len())));
        push_str(html, "</h2>\n");
        assert(t@.subrange(3, t@.len() as int) == t@.skip(3));
    } else if starts_with(&t, &li) {
        if !*in_ul {
            push_str(html, "<ul>\n");
            *in_ul = true;
        }
        push_str(html, "<li>");
        let b = bold_chars(&slice_vec(&t, 2, t.len()));
        push_str(html, b.as_str());
        push_str(html, "</li>\n");
        assert(t@.subrange(2, t@.len() as int) == t@.skip(2));
    } else {
        if *in_ul {
            push_str(html, "</ul>\n");
            *in_ul = false;
        }
        push_str(html, "<p>");
        let b = bold_chars(&t);
        push_str(html, b.as_str());
        push_str(html, "</p>\n");
    }
}

/// Renders the generator's Markdown as HTML, line by line.
pub fn markdown_to_html(md: &str) -> (html: String)
    ensures
        html@ == html_spec(md@),
{
    let v = chars_of(md);
    let mut html = String::new();
    let mut in_ul = false;
    let mut cur: Vec<char> = Vec::new();
    let mut i: usize = 0;
    while i < v.len()
        invariant
            i <= v.len(),
            (html@, in_ul) == html_lines(lines_acc(v@.take(i as int)).0),
            cur@ == lines_acc(v@.take(i as int)).1,
        decreases v.len() - i,
    {
        assert(v@.take(i + 1).drop_last() == v@.take(i as int));
        assert(v@.take(i + 1).last() == v@[i as int]);
        if v[i] == '\n' {
            let ghost ls = lines_acc(v@.take(i as int)).0;
            render_line(&mut html, &mut in_ul, &cur);
            assert(ls.push(cur@).drop_last() == ls);
            cur = Vec::new();
        } else {
            cur.push(v[i]);
        }
        i += 1;
    }
    assert(v@.take(v.len() as int) == v@);
    if cur.len() > 0 {
        let ghost ls = lines_acc(v@).0;
        render_line(&mut html, &mut in_ul, &cur);
        assert(ls.push(cur@).drop_last() == ls);
    }
    if in_ul {
        push_str(&mut html, "</ul>\n");
    }
    html
}

// ---------------------------------------------------------------------------
// Labels
// ---------------------------------------------------------------------------

/// The Dutch label of a project type.
pub open spec fn type_label_spec(t: ProjectType) -> Seq<char> {
    match t {
        ProjectType::SanitaryBathroom => "Badamer renovatie"@,
        ProjectType::CvBoiler => "CV-ketel installatie"@,
        ProjectType::HeatPump => "Warmtepomp installatie"@,
        ProjectType::Radiator => "Radiator vervanging"@,
        ProjectType::Ventilation => "Ventilatiesysteem installatie"@,
        ProjectType::Airco => "Airco installatie"@,
        ProjectType::WaterSoftener => "Waterontharder installatie"@,
        ProjectType::TechnicalRoom => "Technische ruimte inrichting"@,
        ProjectType::Mixed => "Sanitair en CV project"@,
        ProjectType::Unknown => "Installatieproject"@,
    }
}

/// The Dutch label of a project type.
pub fn type_label_dutch(t: &ProjectType) -> (r: String)
    ensures
        r@ == type_label_spec(*t),
{
    let s = match t {
        ProjectType::SanitaryBathroom => "Badamer renovatie",
        ProjectType::CvBoiler => "CV-ketel installatie",
        ProjectType::HeatPump => "Warmtepomp installatie",
        ProjectType::Radiator => "Radiator vervanging",
        ProjectType::Ventilation => "Ventilatiesysteem installatie",
        ProjectType::Airco => "Airco installatie",
        ProjectType::WaterSoftener => "Waterontharder installatie",
        ProjectType::TechnicalRoom => "Technische ruimte inrichting",
        ProjectType::Mixed => "Sanitair en CV project",
        ProjectType::Unknown => "Installatieproject",
    };
    let mut r = String::new();
    push_str(&mut r, s);
    r
}


// ---------------------------------------------------------------------------
// Markdown body
// ---------------------------------------------------------------------------

/// The date label of the body: chrono's `"%B %Y"` of the start date, or
/// `recent`.
pub open spec fn body_date_label(start_date: Option<Seq<char>>) -> Seq<char> {
    match start_date {
        Some(d) => match rfc3339_month_year(d) {
            Some(l) => l,
            None => "recent"@,
        },
        None => "recent"@,
    }
}

pub open spec fn brand_sentence(brands: Seq<Seq<char>>) -> Seq<char> {
    if brands.len() == 0 {
        Seq::<char>::empty()
    } else {
        " Voor dit project zijn producten van "@ + join_seq(brands, ", "@) + " gebruikt."@
    }
}

/// One list line per brand.
pub open spec fn brand_lines(brands: Seq<Seq<char>>) -> Seq<char>
    decreases brands.len(),
{
    if brands.len() == 0 {
        Seq::<char>::empty()
    } else {
        brand_lines(brands.drop_last()) + "- **"@ + brands.last()
            + "** — betrouwbaar en energiezuinig\n"@
    }
}

pub open spec fn materials_section(brands: Seq<Seq<char>>) -> Seq<char> {
    if brands.len() == 0 {
        "Voor dit project is gebruikgemaakt van hoogwaardige materialen uit ons standaardassortiment.\n\n"@
    } else {
        "De volgende merken zijn in dit project toegepast:\n\n"@ + brand_lines(brands) + "\n"@
    }
}

pub open spec fn intro_section(
    type_label: Seq<char>,
    name: Seq<char>,
    date_label: Seq<char>,
    brand_name: Seq<char>,
    location: Seq<char>,
    brands: Seq<Seq<char>>,
) -> Seq<char> {
    "# "@ + type_label + ": "@ + name + " in "@ + location + "\n\n"@ + "In "@ + date_label
        + " heeft **"@ + brand_name + "** een "@ + lowercase_of(type_label) + " uitgevoerd in "@
        + location + "."@ + brand_sentence(brands) + "\n\n"@
}

pub open spec fn description_section(type_label: Seq<char>) -> Seq<char> {
    "## Projectomschrijving\n\n"@ + "Dit project omvat de realisatie van een "@ + lowercase_of(
        type_label,
    )
        + " onder verantwoordelijkheid van onze vakmensen. We hebben gewerkt volgens de geldende Nederlandse normen en richtlijnen, met aandacht voor veiligheid, duurzaamheid en esthetiek. De klant ontvangt na afronding een volledig documentatiedossier inclusief foto's, materiaaloverzicht en garanties.\n\n"@
}

pub open spec fn works_section() -> Seq<char> {
    "## Werkzaamheden\n\n"@
        + "- Vrijmaken van de werkplek en beschermen van de directe omgeving\n"@
        + "- Demontage van de bestaande installatie indien aanwezig\n"@
        + "- Plaatsen en aansluiten van de nieuwe componenten\n"@
        + "- Controleren op lekkages en correcte werking\n"@
        + "- Inregelen en uitleggen van de installatie aan de klant\n"@
        + "- Opruimen van de werkplek en afvoeren van afvalmaterialen\n\n"@
        + "## Materialen en merken\n\n"@
}

pub open spec fn photos_section(media_count: nat) -> Seq<char> {
    "## Fotodocumentatie\n\n"@ + "Hieronder vindt u een selectie van "@ + decimal(media_count)
        + " foto's van dit project. Tijdens de uitvoering zijn er voortgangsfoto's gemaakt, evenals foto's van het eindresultaat.\n\n"@
}

pub open spec fn faq_section(location: Seq<char>) -> Seq<char> {
    "## Veelgestelde vragen\n\n"@ + "**Hoe lang duurt zo'n project?**\n"@
        + "De doorlooptijd hangt af van de complexiteit. Een standaard cv-ketel-installatie is binnen één dag te realiseren, een badkamerrenovatie duurt doorgaans 1-2 weken.\n\n"@
        + "**Krijg ik garantie?**\n"@
        + "Ja, op alle werkzaamheden geldt minimaal 2 jaar garantie. Op materialen geldt de fabrieksgarantie, vaak 5 tot 10 jaar.\n\n"@
        + "**Werken jullie in mijn regio?**\n"@ + "Wij zijn actief in "@ + location
        + " en omliggende gebieden. Neem contact op voor de mogelijkheden.\n\n"@
}

pub open spec fn contact_section(type_label: Seq<char>, brand_name: Seq<char>) -> Seq<char> {
    "## Contact\n\n"@ + "Wilt u ook een "@ + lowercase_of(type_label)
        + " laten uitvoeren? Neem contact op met **"@ + brand_name
        + "** voor een vrijblijvende offerte.\n"@
}

/// The Dutch Markdown body of a project page: introduction, description,
/// works, materials and brands, photos, questions and contact.
pub open spec fn body_markdown_spec(
    type_label: Seq<char>,
    name: Seq<char>,
    date_label: Seq<char>,
    brand_name: Seq<char>,
    location: Seq<char>,
    brands: Seq<Seq<char>>,
    media_count: nat,
) -> Seq<char> {
    intro_section(type_label, name, date_label, brand_name, location, brands)
        + description_section(type_label) + works_section() + materials_section(brands)
        + photos_section(media_count) + faq_section(location) + contact_section(
        type_label,
        brand_name,
    )
}

/// The optional text of a field, as a view.
pub open spec fn opt_view(o: Option<String>) -> Option<Seq<char>> {
    match o {
        Some(s) => Some(s@),
        None => None,
    }
}

#[verifier::rlimit(100)]
#[verifier::spinoff_prover]
fn push_intro(
    md: &mut String,
    type_label: &str,
    name: &str,
    date_label: &str,
    brand_name: &str,
    location: &str,
    brands: &[String],
)
    ensures
        final(md)@ == old(md)@ + intro_section(
            type_label@,
            name@,
            date_label@,
            brand_name@,
            location@,
            string_views(brands@),
        ),
{
    let lower = to_lowercase(type_label);
    push_str(md, "# ");
    push_str(md, type_label);
    push_str(md, ": ");
    push_str(md, name);
    push_str(md, " in ");
    push_str(md, location);
    push_str(md, "\n\n");
    push_str(md, "In ");
    push_str(md, date_label);
    push_str(md, " heeft **");
    push_str(md, brand_name);
    push_str(md, "** een ");
    push_str(md, lower.as_str());
    push_str(md, " uitgevoerd in ");
    push_str(md, location);
    push_str(md, ".");
    let ghost mid = md@;
    if brands.len() > 0 {
        push_str(md, " Voor dit project zijn producten van ");
        let joined = join_strings(brands, ", ");
        push_str(md, joined.as_str());
        push_str(md, " gebruikt.");
    }
    assert(md@ == mid + brand_sentence(string_views(brands@)));
    push_str(md, "\n\n");
}

fn push_description(md: &mut String, type_label: &str)
    ensures
        final(md)@ == old(md)@ + description_section(type_label@),
{
    let lower = to_lowercase(type_label);
    push_str(md, "## Projectomschrijving\n\n");
    push_str(md, "Dit project omvat de realisatie van een ");
    push_str(md, lower.as_str());
    push_str(
        md,
        " onder verantwoordelijkheid van onze vakmensen. We hebben gewerkt volgens de geldende Nederlandse normen en richtlijnen, met aandacht voor veiligheid, duurzaamheid en esthetiek. De klant ontvangt na afronding een volledig documentatiedossier inclusief foto's, materiaaloverzicht en garanties.\n\n",
    );
}

fn push_works(md: &mut String)
    ensures
        final(md)@ == old(md)@ + works_section(),
{
    push_str(md, "## Werkzaamheden\n\n");
    push_str(md, "- Vrijmaken van de werkplek en beschermen van de directe omgeving\n");
    push_str(md, "- Demontage van de bestaande installatie indien aanwezig\n");
    push_str(md, "- Plaatsen en aansluiten van de nieuwe componenten\n");
    push_str(md, "- Controleren op lekkages en correcte werking\n");
    push_str(md, "- Inregelen en uitleggen van de installatie aan de klant\n");
    push_str(md, "- Opruimen van de werkplek en afvoeren van afvalmaterialen\n\n");
    push_str(md, "## Materialen en merken\n\n");
}

fn push_materials(md: &mut String, brands: &[String])
    ensures
        final(md)@ == old(md)@ + materials_section(string_views(brands@)),
{
    let ghost bv = string_views(brands@);
    if brands.len() == 0 {
        push_str(
            md,
            "Voor dit project is gebruikgemaakt van hoogwaardige materialen uit ons standaardassortiment.\n\n",
        );
    } else {
        push_str(md, "De volgende merken zijn in dit project toegepast:\n\n");
        let ghost start = md@;
        let mut i: usize = 0;
        while i < brands.len()
            invariant
                i <= brands.len(),
                bv == string_views(brands@),
                md@ == start + brand_lines(bv.take(i as int)),
            decreases brands.len() - i,
        {
            assert(bv.take(i + 1).drop_last() == bv.take(i as int));
            push_str(md, "- **");
            push_str(md, brands[i].as_str());
            push_str(md, "** — betrouwbaar en energiezuinig\n");
            i += 1;
        }
        assert(bv.take(brands.len() as int) == bv);
        push_str(md, "\n");
    }
}

fn push_photos(md: &mut String, count: usize)
    ensures
        final(md)@ == old(md)@ + photos_section(count as nat),
{
    push_str(md, "## Fotodocumentatie\n\n");
    push_str(md, "Hieronder vindt u een selectie van ");
    push_decimal(md, count as u64);
    push_str(
        md,
        " foto's van dit project. Tijdens de uitvoering zijn er voortgangsfoto's gemaakt, evenals foto's van het eindresultaat.\n\n",
    );
}

fn push_faq(md: &mut String, location: &str)
    ensures
        final(md)@ == old(md)@ + faq_section(location@),
{
    push_str(md, "## Veelgestelde vragen\n\n");
    push_str(md, "**Hoe lang duurt zo'n project?**\n");
    push_str(
        md,
        "De doorlooptijd hangt af van de complexiteit. Een standaard cv-ketel-installatie is binnen één dag te realiseren, een badkamerrenovatie duurt doorgaans 1-2 weken.\n\n",
    );
    push_str(md, "**Krijg ik garantie?**\n");
    push_str(
        md,
        "Ja, op alle werkzaamheden geldt minimaal 2 jaar garantie. Op materialen geldt de fabrieksgarantie, vaak 5 tot 10 jaar.\n\n",
    );
    push_str(md, "**Werken jullie in mijn regio?**\n");
    push_str(md, "Wij zijn actief in ");
    push_str(md, location);
    push_str(md, " en omliggende gebieden. Neem contact op voor de mogelijkheden.\n\n");
}

fn push_contact(md: &mut String, type_label: &str, brand_name: &str)
    ensures
        final(md)@ == old(md)@ + contact_section(type_label@, brand_name@),
{
    let lower = to_lowercase(type_label);
    push_str(md, "## Contact\n\n");
    push_str(md, "Wilt u ook een ");
    push_str(md, lower.as_str());
    push_str(md, " laten uitvoeren? Neem contact op met **");
    push_str(md, brand_name);
    push_str(md, "** voor een vrijblijvende offerte.\n");
}

/// Builds the Dutch Markdown body of a project page (about 400 words).
pub fn build_body_markdown(
    project: &Project,
    brand_name: &str,
    location: &str,
    brands: &[String],
    type_label: &str,
    media: &[Media],
) -> (md: String)
    ensures
        md@ == body_markdown_spec(
            type_label@,
            project.name@,
            body_date_label(opt_view(project.start_date)),
            brand_name@,
            location@,
            string_views(brands@),
            media@.len(),
        ),
{
    body_markdown_for(project, brand_name, location, brands, type_label, media.len())
}

/// The Markdown body for a page with `photo_count` photos.
fn body_markdown_for(
    project: &Project,
    brand_name: &str,
    location: &str,
    brands: &[String],
    type_label: &str,
    photo_count: usize,
) -> (md: String)
    ensures
        md@ == body_markdown_spec(
            type_label@,
            project.name@,
            body_date_label(opt_view(project.start_date)),
            brand_name@,
            location@,
            string_views(brands@),
            photo_count as nat,
        ),
{
    let mut date_label = String::new();
    match &project.start_date {
        Some(d) => match format_rfc3339_month_year(d.as_str()) {
            Some(l) => {
                date_label = l;
            },
            None => {
                push_str(&mut date_label, "recent");
            },
        },
        None => {
            push_str(&mut date_label, "recent");
        },
    }
    let mut md = String::new();
    push_intro(
        &mut md,
        type_label,
        project.name.as_str(),
        date_label.as_str(),
        brand_name,
        location,
        brands,
    );
    push_description(&mut md, type_label);
    push_works(&mut md);
    push_materials(&mut md, brands);
    push_photos(&mut md, photo_count);
    push_faq(&mut md, location);
    push_contact(&mut md, type_label, brand_name);
    md
}


// ---------------------------------------------------------------------------
// Title, description, slug, keywords, alt texts, JSON-LD
// ---------------------------------------------------------------------------

/// Settings the generator reads; each is `None` where the setting is missing
/// or not a JSON string.
pub struct SeoSettings {
    pub brand_name: Option<String>,
    pub website_url: Option<String>,
    pub contact_email: Option<String>,
    pub contact_phone: Option<String>,
}

/// Generated content and any warnings about it.
pub struct SeoGenerated {
    pub seo: Seo,
    pub warnings: Vec<String>,
}

pub open spec fn or_default(o: Option<String>, d: Seq<char>) -> Seq<char> {
    match o {
        Some(s) => s@,
        None => d,
    }
}

pub open spec fn brand_name_of(st: SeoSettings) -> Seq<char> {
    or_default(st.brand_name, "Mariën Sanitair en Centrale Verwarming"@)
}

pub open spec fn website_url_of(st: SeoSettings) -> Seq<char> {
    or_default(st.website_url, "https://www.mariensanitair.nl"@)
}

pub open spec fn location_of(p: Project) -> Seq<char> {
    or_default(p.location_label, "Nederland"@)
}

/// The date label of the title: chrono's `"%B %Y"` of the start date, or
/// empty.
pub open spec fn title_date_label(start_date: Option<Seq<char>>) -> Seq<char> {
    match start_date {
        Some(d) => match rfc3339_month_year(d) {
            Some(l) => l,
            None => Seq::<char>::empty(),
        },
        None => Seq::<char>::empty(),
    }
}

pub open spec fn title_base(label: Seq<char>, location: Seq<char>, date_label: Seq<char>) -> Seq<
    char,
> {
    if date_label.len() > 0 {
        label + " in "@ + location + " ("@ + date_label + ")"@
    } else {
        label + " in "@ + location
    }
}

/// At most the first `n` characters of `s`.
pub open spec fn first_chars(s: Seq<char>, n: nat) -> Seq<char> {
    if s.len() <= n {
        s
    } else {
        s.take(n as int)
    }
}

/// `<label> in <location> (<date>) | <brand>` when that fits in 60
/// characters, else the part before ` | ` cut to 60 characters.
pub open spec fn title_spec(base: Seq<char>, brand: Seq<char>) -> Seq<char> {
    if base.len() + brand.len() + 3 <= 60 {
        base + " | "@ + brand
    } else {
        first_chars(base, 60)
    }
}

pub open spec fn brands_phrase(brands: Seq<Seq<char>>) -> Seq<char> {
    if brands.len() == 0 {
        Seq::<char>::empty()
    } else {
        " met merken zoals "@ + join_seq(brands, ", "@) + " "@
    }
}

pub open spec fn meta_base(
    lower_label: Seq<char>,
    brand: Seq<char>,
    location: Seq<char>,
    brands: Seq<Seq<char>>,
) -> Seq<char> {
    "Recente "@ + lower_label + " uitgevoerd door "@ + brand + " in "@ + location
        + ". Bekijk foto's en specificaties"@ + brands_phrase(brands) + "van dit project."@
}

/// The meta description: cut to 157 characters plus `...` when over 160
/// characters.
pub open spec fn meta_spec(base: Seq<char>) -> Seq<char> {
    if base.len() > 160 {
        base.take(157) + "..."@
    } else {
        base
    }
}

/// A generated title has at most 60 characters; a meta description has at
/// most 160, is the text itself when that fits, and otherwise the text's
/// first 157 characters followed by `...`.
pub proof fn lemma_title_meta_bounds(base: Seq<char>, brand: Seq<char>, meta: Seq<char>)
    ensures
        title_spec(base, brand).len() <= 60,
        meta_spec(meta).len() <= 160,
        meta.len() <= 160 ==> meta_spec(meta) == meta,
        meta.len() > 160 ==> meta_spec(meta).take(157) == meta.take(157) && meta_spec(meta).skip(157)
            == "..."@,
{
    reveal_strlit(" | ");
    reveal_strlit("...");
    if meta.len() > 160 {
        assert(meta_spec(meta).take(157) =~= meta.take(157));
        assert(meta_spec(meta).skip(157) =~= "..."@);
    }
}

/// The first eight bytes of an id can be taken.
pub open spec fn id_prefix_ok(id: Seq<char>) -> bool {
    utf8_len(id) >= 8 && is_byte_boundary(id, 8)
}

pub open spec fn id_prefix(id: Seq<char>) -> Seq<char> {
    id.take(boundary_index(id, 8))
}

pub open spec fn slug_spec(label: Seq<char>, location: Seq<char>, id: Seq<char>) -> Seq<char> {
    slug_of(label + "-"@ + location) + "-"@ + id_prefix(id)
}

pub open spec fn brand_keywords(brands: Seq<Seq<char>>) -> Seq<Seq<char>>
    decreases brands.len(),
{
    if brands.len() == 0 {
        Seq::<Seq<char>>::empty()
    } else {
        brand_keywords(brands.drop_last()).push(brands.last()).push(
            brands.last() + " installatie"@,
        )
    }
}

/// The keyword candidates before sorting and removing duplicates.
pub open spec fn keyword_list(
    label: Seq<char>,
    lower_label: Seq<char>,
    location: Seq<char>,
    brand: Seq<char>,
    brands: Seq<Seq<char>>,
) -> Seq<Seq<char>> {
    seq![
        label,
        lower_label,
        location,
        brand,
        "sanitair"@,
        "centrale verwarming"@,
        "installatie"@,
        "realisatie"@,
        "project"@,
    ] + brand_keywords(brands)
}

/// The keywords: the candidates sorted without repeats, at most the first
/// ten.
pub open spec fn keywords_spec(candidates: Seq<Seq<char>>) -> Seq<Seq<char>> {
    let all = sorted_set(candidates);
    if all.len() <= 10 {
        all
    } else {
        all.take(10)
    }
}

/// Alt text of one media item from its detected object labels.
pub open spec fn alt_spec(
    objects: Seq<Seq<char>>,
    label: Seq<char>,
    lower_label: Seq<char>,
    location: Seq<char>,
    brands: Seq<Seq<char>>,
) -> Seq<char> {
    let objs = sorted_set(objects);
    let obj_part = if objs.len() == 0 {
        label
    } else {
        join_seq(objs, ", "@)
    };
    let brand_part = if brands.len() == 0 {
        Seq::<char>::empty()
    } else {
        " van "@ + join_seq(brands, ", "@)
    };
    obj_part + " tijdens "@ + lower_label + " in "@ + location + brand_part
}

/// The schema.org `Service` description, as `serde_json` prints the
/// generator's `json!` value (keys in sorted order, no spaces).
pub open spec fn schema_spec(
    title: Seq<char>,
    meta: Seq<char>,
    brand: Seq<char>,
    email: Seq<char>,
    phone: Seq<char>,
    url: Seq<char>,
    label: Seq<char>,
    location: Seq<char>,
) -> Seq<char> {
    "{\"@context\":\"https://schema.org\",\"@type\":\"Service\",\"areaServed\":"@ + json_string(
        location,
    ) + ",\"description\":"@ + json_string(meta) + ",\"name\":"@ + json_string(title)
        + ",\"provider\":{\"@type\":\"LocalBusiness\",\"areaServed\":\"Nederland\",\"email\":"@
        + json_string(email) + ",\"name\":"@ + json_string(brand) + ",\"telephone\":"@
        + json_string(phone) + ",\"url\":"@ + json_string(url) + "},\"serviceType\":"@
        + json_string(label) + "}"@
}

/// The Dutch labels are ASCII, so their lowercase form is the ASCII one.
pub proof fn lemma_type_label_ascii(t: ProjectType)
    ensures
        all_ascii(type_label_spec(t)),
{
    reveal_strlit("Badamer renovatie");
    reveal_strlit("CV-ketel installatie");
    reveal_strlit("Warmtepomp installatie");
    reveal_strlit("Radiator vervanging");
    reveal_strlit("Ventilatiesysteem installatie");
    reveal_strlit("Airco installatie");
    reveal_strlit("Waterontharder installatie");
    reveal_strlit("Technische ruimte inrichting");
    reveal_strlit("Sanitair en CV project");
    reveal_strlit("Installatieproject");
}

fn build_title(base: &[char], brand: &str) -> (r: String)
    ensures
        r@ == title_spec(base@, brand@),
{
    let bc = chars_of(brand);
    if base.len() <= 60 && bc.len() <= 60 && base.len() + bc.len() + 3 <= 60 {
        let mut r = string_of(base);
        push_str(&mut r, " | ");
        push_str(&mut r, brand);
        r
    } else if base.len() <= 60 {
        string_of(base)
    } else {
        let head = slice_vec(base, 0, 60);
        assert(head@ =~= base@.take(60));
        string_of(&head)
    }
}

fn build_meta(base: &[char]) -> (r: String)
    ensures
        r@ == meta_spec(base@),
{
    if base.len() > 160 {
        let head = slice_vec(base, 0, 157);
        assert(head@ =~= base@.take(157));
        let mut r = string_of(&head);
        push_str(&mut r, "...");
        r
    } else {
        string_of(base)
    }
}

/// In a strictly increasing sequence, a smaller value stands before a
/// larger one.
proof fn lemma_sorted_positions(s: Seq<Seq<char>>, x: Seq<char>, y: Seq<char>) -> (ij: (int, int))
    requires
        strictly_sorted(s),
        s.contains(x),
        s.contains(y),
        lex_lt(x, y),
    ensures
        0 <= ij.0 < ij.1 < s.len(),
        s[ij.0] == x,
        s[ij.1] == y,
{
    let i = choose|i: int| 0 <= i < s.len() && s[i] == x;
    let j = choose|j: int| 0 <= j < s.len() && s[j] == y;
    if j == i {
        lemma_lex_irreflexive(x);
    } else if j < i {
        lemma_lex_asymmetric(x, y);
    }
    (i, j)
}

/// The keywords are strictly increasing and number between five and ten:
/// the five fixed words are always among the candidates.
pub proof fn lemma_keyword_bounds(candidates: Seq<Seq<char>>, all: Seq<Seq<char>>)
    requires
        sorted_set_of(all, candidates),
        candidates.contains("centrale verwarming"@),
        candidates.contains("installatie"@),
        candidates.contains("project"@),
        candidates.contains("realisatie"@),
        candidates.contains("sanitair"@),
    ensures
        strictly_sorted(if all.len() <= 10 { all } else { all.take(10) }),
        5 <= (if all.len() <= 10 { all } else { all.take(10) }).len() <= 10,
{
    reveal_strlit("centrale verwarming");
    reveal_strlit("installatie");
    reveal_strlit("project");
    reveal_strlit("realisatie");
    reveal_strlit("sanitair");
    assert(lex_lt("centrale verwarming"@, "installatie"@));
    assert(lex_lt("installatie"@, "project"@));
    assert(lex_lt("project"@, "realisatie"@));
    assert(lex_lt("realisatie"@, "sanitair"@));
    let (a, b) = lemma_sorted_positions(all, "centrale verwarming"@, "installatie"@);
    let (b2, c) = lemma_sorted_positions(all, "installatie"@, "project"@);
    let (c2, d) = lemma_sorted_positions(all, "project"@, "realisatie"@);
    let (d2, e) = lemma_sorted_positions(all, "realisatie"@, "sanitair"@);
    lemma_lex_irreflexive("installatie"@);
    lemma_lex_irreflexive("project"@);
    lemma_lex_irreflexive("realisatie"@);
    if b != b2 {
        assert(lex_lt(all[if b < b2 { b } else { b2 }], all[if b < b2 { b2 } else { b }]));
    }
    if c != c2 {
        assert(lex_lt(all[if c < c2 { c } else { c2 }], all[if c < c2 { c2 } else { c }]));
    }
    if d != d2 {
        assert(lex_lt(all[if d < d2 { d } else { d2 }], all[if d < d2 { d2 } else { d }]));
    }
    assert(all.len() >= 5);
}

fn build_keywords(
    label: &str,
    lower_label: &str,
    location: &str,
    brand: &str,
    brands: &[String],
) -> (r: Vec<String>)
    ensures
        string_views(r@) == keywords_spec(
            keyword_list(label@, lower_label@, location@, brand@, string_views(brands@)),
        ),
        strictly_sorted(string_views(r@)),
        5 <= r@.len() <= 10,
{
    let mut list: Vec<String> = Vec::new();
    list.push(string_of(&chars_of(label)));
    list.push(string_of(&chars_of(lower_label)));
    list.push(string_of(&chars_of(location)));
    list.push(string_of(&chars_of(brand)));
    list.push(string_of(&chars_of("sanitair")));
    list.push(string_of(&chars_of("centrale verwarming")));
    list.push(string_of(&chars_of("installatie")));
    list.push(string_of(&chars_of("realisatie")));
    list.push(string_of(&chars_of("project")));
    let ghost bv = string_views(brands@);
    let ghost head = string_views(list@);
    assert(head =~= seq![
        label@,
        lower_label@,
        location@,
        brand@,
        "sanitair"@,
        "centrale verwarming"@,
        "installatie"@,
        "realisatie"@,
        "project"@,
    ]);
    let mut i: usize = 0;
    while i < brands.len()
        invariant
            i <= brands.len(),
            bv == string_views(brands@),
            string_views(list@) == head + brand_keywords(bv.take(i as int)),
        decreases brands.len() - i,
    {
        assert(bv.take(i + 1).drop_last() == bv.take(i as int));
        let ghost before = list@;
        let a = string_of(&chars_of(brands[i].as_str()));
        let mut b = string_of(&chars_of(brands[i].as_str()));
        push_str(&mut b, " installatie");
        list.push(a);
        list.push(b);
        assert(string_views(list@) =~= string_views(before).push(bv[i as int]).push(
            bv[i as int] + " installatie"@,
        ));
        i += 1;
    }
    assert(bv.take(brands.len() as int) == bv);
    let all = sort_dedup_set(&list);
    let ghost av = string_views(all@);
    let mut r: Vec<String> = Vec::new();
    let mut k: usize = 0;
    while k < all.len() && k < 10
        invariant
            k <= all@.len(),
            k <= 10,
            av == string_views(all@),
            string_views(r@) =~= av.take(k as int),
        decreases all.len() - k,
    {
        let ghost before = r@;
        r.push(all[k].clone());
        assert(string_views(r@) =~= string_views(before).push(av[k as int]));
        k += 1;
    }
    assert(av.len() <= 10 ==> av.take(av.len() as int) =~= av);
    proof {
        let c = string_views(list@);
        assert(c[5] == "centrale verwarming"@);
        assert(c[6] == "installatie"@);
        assert(c[8] == "project"@);
        assert(c[7] == "realisatie"@);
        assert(c[4] == "sanitair"@);
        lemma_keyword_bounds(c, av);
    }
    r
}

fn build_alt(
    objects: &[String],
    label: &str,
    lower_label: &str,
    location: &str,
    brands: &[String],
) -> (r: String)
    ensures
        r@ == alt_spec(string_views(objects@), label@, lower_label@, location@, string_views(brands@)),
{
    let objs = sort_dedup_set(objects);
    let mut r = String::new();
    if objs.len() == 0 {
        push_str(&mut r, label);
    } else {
        let j = join_strings(&objs, ", ");
        push_str(&mut r, j.as_str());
    }
    push_str(&mut r, " tijdens ");
    push_str(&mut r, lower_label);
    push_str(&mut r, " in ");
    push_str(&mut r, location);
    if brands.len() > 0 {
        push_str(&mut r, " van ");
        let j = join_strings(brands, ", ");
        push_str(&mut r, j.as_str());
    }
    r
}

fn build_schema(
    title: &str,
    meta: &str,
    brand: &str,
    email: &str,
    phone: &str,
    url: &str,
    label: &str,
    location: &str,
) -> (r: String)
    ensures
        r@ == schema_spec(title@, meta@, brand@, email@, phone@, url@, label@, location@),
{
    let mut r = String::new();
    push_str(
        &mut r,
        "{\"@context\":\"https://schema.org\",\"@type\":\"Service\",\"areaServed\":",
    );
    push_json_string(&mut r, location);
    push_str(&mut r, ",\"description\":");
    push_json_string(&mut r, meta);
    push_str(&mut r, ",\"name\":");
    push_json_string(&mut r, title);
    push_str(&mut r, ",\"provider\":{\"@type\":\"LocalBusiness\",\"areaServed\":\"Nederland\",\"email\":");
    push_json_string(&mut r, email);
    push_str(&mut r, ",\"name\":");
    push_json_string(&mut r, brand);
    push_str(&mut r, ",\"telephone\":");
    push_json_string(&mut r, phone);
    push_str(&mut r, ",\"url\":");
    push_json_string(&mut r, url);
    push_str(&mut r, "},\"serviceType\":");
    push_json_string(&mut r, label);
    push_str(&mut r, "}");
    r
}


// ---------------------------------------------------------------------------
// The whole page
// ---------------------------------------------------------------------------

/// A media item of the project with the object labels of its latest object
/// detection.
pub struct MediaObjects {
    pub media: Media,
    pub objects: Vec<String>,
}

pub open spec fn media_count_of(items: Seq<MediaObjects>) -> nat {
    items.len()
}

/// What the generator uses from its inputs.
pub open spec fn label_of(p: Project) -> Seq<char> {
    type_label_spec(p.project_type)
}

pub open spec fn lower_label_of(p: Project) -> Seq<char> {
    ascii_lower(type_label_spec(p.project_type))
}

pub open spec fn brands_of(found: Seq<String>) -> Seq<Seq<char>> {
    sorted_set(string_views(found))
}

pub open spec fn seo_title_of(p: Project, st: SeoSettings, date_label: Seq<char>) -> Seq<char> {
    title_spec(title_base(label_of(p), location_of(p), date_label), brand_name_of(st))
}

pub open spec fn seo_meta_of(p: Project, st: SeoSettings, found: Seq<String>) -> Seq<char> {
    meta_spec(meta_base(lower_label_of(p), brand_name_of(st), location_of(p), brands_of(found)))
}

pub open spec fn seo_body_of(p: Project, st: SeoSettings, found: Seq<String>, count: nat) -> Seq<
    char,
> {
    body_markdown_spec(
        label_of(p),
        p.name@,
        body_date_label(opt_view(p.start_date)),
        brand_name_of(st),
        location_of(p),
        brands_of(found),
        count,
    )
}

/// The projects the generator can write a page for: those whose id has a
/// first eight bytes, which the slug takes.
pub open spec fn seo_inputs_ok(p: Project) -> bool {
    id_prefix_ok(p.id@)
}

pub open spec fn first_media_id(items: Seq<MediaObjects>) -> Option<Seq<char>> {
    if items.len() > 0 {
        Some(items[0].media.id@)
    } else {
        None
    }
}

/// Minutes to read a text of `wc` words at 200 words a minute, at least one.
pub open spec fn reading_minutes(wc: nat) -> i64 {
    let w = wc as i64;
    if w / 200 >= 1 {
        (w / 200) as i64
    } else {
        1
    }
}

fn owned(s: &str) -> (r: String)
    ensures
        r@ == s@,
{
    string_of(&chars_of(s))
}

fn owned_or(o: &Option<String>, d: &str) -> (r: String)
    ensures
        r@ == or_default(*o, d@),
{
    match o {
        Some(s) => owned(s.as_str()),
        None => owned(d),
    }
}

fn project_slug(label: &str, location: &str, id: &str) -> (r: String)
    requires
        id_prefix_ok(id@),
    ensures
        r@ == slug_spec(label@, location@, id@),
{
    let mut base = owned(label);
    push_str(&mut base, "-");
    push_str(&mut base, location);
    let mut r = slugify(base.as_str());
    push_str(&mut r, "-");
    let idc = chars_of(id);
    let k = boundary_index_exec(&idc, 8);
    push_chars(&mut r, &slice_vec(&idc, 0, k));
    assert(idc@.subrange(0, k as int) == idc@.take(k as int));
    r
}

/// `g` is the page the generator writes for these inputs.
pub open spec fn is_seo_content(
    g: SeoGenerated,
    project: Project,
    items: Seq<MediaObjects>,
    brands_found: Seq<String>,
    settings: SeoSettings,
    existing: Option<&Seo>,
    fresh_id: Seq<char>,
    now: Seq<char>,
    date_label: Seq<char>,
) -> bool {
    &&& g.warnings@.len() == 0
    &&& g.seo.id@ == (match existing {
                Some(e) => e.id@,
                None => fresh_id,
            })
    &&& g.seo.created_at@ == (match existing {
                Some(e) => e.created_at@,
                None => now,
            })
    &&& g.seo.updated_at@ == now
    &&& g.seo.project_id@ == project.id@
    &&& g.seo.title@ == seo_title_of(project, settings, date_label)
    &&& g.seo.meta_description@ == seo_meta_of(project, settings, brands_found)
    &&& g.seo.slug@ == slug_spec(label_of(project), location_of(project), project.id@)
    &&& string_views(g.seo.keywords@) == keywords_spec(
                keyword_list(
                    label_of(project),
                    lower_label_of(project),
                    location_of(project),
                    brand_name_of(settings),
                    brands_of(brands_found),
                ),
            )
    &&& strictly_sorted(string_views(g.seo.keywords@))
    &&& 5 <= g.seo.keywords@.len() <= 10
    &&& opt_view(g.seo.canonical_url) == Some(
                website_url_of(settings) + "/projecten/"@ + project.slug@,
            )
    &&& opt_view(g.seo.og_title) == Some(label_of(project) + " — "@ + location_of(project))
    &&& opt_view(g.seo.og_description) == Some(
                "Project van "@ + brand_name_of(settings) + " in "@ + location_of(project),
            )
    &&& opt_view(g.seo.og_image_media_id) == (match project.cover_media_id {
                Some(c) => Some(c@),
                None => first_media_id(items),
            })
    &&& opt_view(g.seo.body_markdown) == Some(
                seo_body_of(project, settings, brands_found, items.len()),
            )
    &&& opt_view(g.seo.body_html) == Some(
                html_spec(seo_body_of(project, settings, brands_found, items.len())),
            )
    &&& g.seo.alt_texts@.len() == items.len()
    &&& forall|i: int|
                0 <= i < items.len() ==> {
                    &&& (#[trigger] g.seo.alt_texts@[i]).0@ == items[i].media.id@
                    &&& g.seo.alt_texts@[i].1@ == alt_spec(
                        string_views(items[i].objects@),
                        label_of(project),
                        lower_label_of(project),
                        location_of(project),
                        brands_of(brands_found),
                    )
                }
    &&& opt_view(g.seo.schema_org_json) == Some(
                schema_spec(
                    seo_title_of(project, settings, date_label),
                    seo_meta_of(project, settings, brands_found),
                    brand_name_of(settings),
                    or_default(settings.contact_email, ""@),
                    or_default(settings.contact_phone, ""@),
                    website_url_of(settings),
                    label_of(project),
                    location_of(project),
                ),
            )
    &&& g.seo.language@ == "nl-NL"@
    &&& g.seo.word_count == Some(
                word_count(seo_body_of(project, settings, brands_found, items.len())) as i64,
            )
    &&& g.seo.reading_time_min == Some(
                reading_minutes(word_count(seo_body_of(project, settings, brands_found, items.len()))),
            )
    &&& g.seo.status == SeoStatus::Draft
    &&& g.seo.generated_by@ == "local-ai"@
    &&& opt_view(g.seo.prompt_template) == Some("default-dutch-v1"@)
}

/// The reading time is the word count at 200 words a minute, rounded
/// down, and at least one minute.
pub proof fn lemma_reading_time(
    g: SeoGenerated,
    project: Project,
    items: Seq<MediaObjects>,
    brands_found: Seq<String>,
    settings: SeoSettings,
    existing: Option<&Seo>,
    fresh_id: Seq<char>,
    now: Seq<char>,
    date_label: Seq<char>,
)
    requires
        is_seo_content(g, project, items, brands_found, settings, existing, fresh_id, now, date_label),
        g.seo.word_count matches Some(w) && w >= 0,
    ensures
        g.seo.reading_time_min matches Some(m) && m >= 1 && m * 200 <= (if g.seo.word_count->0
            < 200 {
            200
        } else {
            g.seo.word_count->0
        }) && g.seo.word_count->0 < (m + 1) * 200,
{
    let w = g.seo.word_count->0;
    let m = g.seo.reading_time_min->0;
    assert(m == (if w / 200 >= 1 {
        w / 200
    } else {
        1
    }));
    assert(w / 200 * 200 <= w && w < (w / 200 + 1) * 200) by (nonlinear_arith)
        requires
            w >= 0,
    ;
}

/// The page's OpenGraph image is the project's cover photo whenever the
/// project has one, whatever media it has; only a project without a cover
/// shows its first media item, and one with neither shows none.
pub proof fn lemma_og_image_prefers_cover(
    g: SeoGenerated,
    project: Project,
    items: Seq<MediaObjects>,
    brands_found: Seq<String>,
    settings: SeoSettings,
    existing: Option<&Seo>,
    fresh_id: Seq<char>,
    now: Seq<char>,
    date_label: Seq<char>,
)
    requires
        is_seo_content(g, project, items, brands_found, settings, existing, fresh_id, now, date_label),
    ensures
        project.cover_media_id is Some ==> (g.seo.og_image_media_id matches Some(o) && o@
            == project.cover_media_id->0@),
        project.cover_media_id is None && items.len() > 0 ==> (g.seo.og_image_media_id matches Some(
            o,
        ) && o@ == items[0].media.id@),
        project.cover_media_id is None && items.len() == 0 ==> g.seo.og_image_media_id is None,
{
}

/// The SEO page of a project, given the date label of its title.
pub fn seo_content(
    project: &Project,
    items: &[MediaObjects],
    brands_found: &[String],
    settings: &SeoSettings,
    existing: Option<&Seo>,
    fresh_id: &str,
    now: &str,
    date_label: &str,
) -> (g: SeoGenerated)
    requires
        seo_inputs_ok(*project),
    ensures
        is_seo_content(g, *project, items@, brands_found@, *settings, existing, fresh_id@, now@, date_label@),
        project.cover_media_id is Some ==> (g.seo.og_image_media_id matches Some(o) && o@
            == project.cover_media_id->0@),
{
    let brands = sort_dedup_set(brands_found);
    let label = type_label_dutch(&project.project_type);
    proof {
        lemma_type_label_ascii(project.project_type);
    }
    let lower = to_lowercase(label.as_str());
    let location = owned_or(&project.location_label, "Nederland");
    let brand_name = owned_or(&settings.brand_name, "Mariën Sanitair en Centrale Verwarming");
    let website_url = owned_or(&settings.website_url, "https://www.mariensanitair.nl");
    let contact_email = owned_or(&settings.contact_email, "");
    let contact_phone = owned_or(&settings.contact_phone, "");

    let base = title_base_string(label.as_str(), location.as_str(), date_label);
    let title = build_title(&chars_of(base.as_str()), brand_name.as_str());
    let mb = meta_base_string(lower.as_str(), brand_name.as_str(), location.as_str(), &brands);
    let meta = build_meta(&chars_of(mb.as_str()));

    let slug = project_slug(label.as_str(), location.as_str(), project.id.as_str());
    let keywords = build_keywords(
        label.as_str(),
        lower.as_str(),
        location.as_str(),
        brand_name.as_str(),
        &brands,
    );

    // alt texts
    let mut alt_texts: Vec<(String, String)> = Vec::new();
    let mut i: usize = 0;
    while i < items.len()
        invariant
            i <= items.len(),
            alt_texts@.len() == i,
            label@ == label_of(*project),
            lower@ == lower_label_of(*project),
            location@ == location_of(*project),
            string_views(brands@) == brands_of(brands_found@),
            forall|k: int|
                0 <= k < i ==> {
                    &&& (#[trigger] alt_texts@[k]).0@ == items@[k].media.id@
                    &&& alt_texts@[k].1@ == alt_spec(
                        string_views(items@[k].objects@),
                        label_of(*project),
                        lower_label_of(*project),
                        location_of(*project),
                        brands_of(brands_found@),
                    )
                },
        decreases items.len() - i,
    {
        let alt = build_alt(
            &items[i].objects,
            label.as_str(),
            lower.as_str(),
            location.as_str(),
            &brands,
        );
        alt_texts.push((owned(items[i].media.id.as_str()), alt));
        i += 1;
    }

    let md = body_markdown_for(
        project,
        brand_name.as_str(),
        location.as_str(),
        &brands,
        label.as_str(),
        items.len(),
    );
    let body_html = markdown_to_html(md.as_str());
    let wc = word_count_exec(&chars_of(md.as_str()));
    let word_count_i = wc as i64;
    let reading = if word_count_i / 200 >= 1 {
        word_count_i / 200
    } else {
        1
    };

    let schema = build_schema(
        title.as_str(),
        meta.as_str(),
        brand_name.as_str(),
        contact_email.as_str(),
        contact_phone.as_str(),
        website_url.as_str(),
        label.as_str(),
        location.as_str(),
    );

    let mut canonical = owned(website_url.as_str());
    push_str(&mut canonical, "/projecten/");
    push_str(&mut canonical, project.slug.as_str());
    let mut og_title = owned(label.as_str());
    push_str(&mut og_title, " — ");
    push_str(&mut og_title, location.as_str());
    let mut og_description = owned("Project van ");
    push_str(&mut og_description, brand_name.as_str());
    push_str(&mut og_description, " in ");
    push_str(&mut og_description, location.as_str());
    let og_image = match &project.cover_media_id {
        Some(c) => Some(owned(c.as_str())),
        None => if items.len() > 0 {
            Some(owned(items[0].media.id.as_str()))
        } else {
            None
        },
    };
    let (id, created_at) = match existing {
        Some(e) => (owned(e.id.as_str()), owned(e.created_at.as_str())),
        None => (owned(fresh_id), owned(now)),
    };
    let seo = Seo {
        id,
        project_id: owned(project.id.as_str()),
        title,
        slug,
        meta_description: meta,
        keywords,
        canonical_url: Some(canonical),
        og_title: Some(og_title),
        og_description: Some(og_description),
        og_image_media_id: og_image,
        body_html: Some(body_html),
        body_markdown: Some(md),
        alt_texts,
        schema_org_json: Some(schema),
        language: owned("nl-NL"),
        reading_time_min: Some(reading),
        word_count: Some(word_count_i),
        status: SeoStatus::Draft,
        generated_by: owned("local-ai"),
        prompt_template: Some(owned("default-dutch-v1")),
        created_at,
        updated_at: owned(now),
    };
    SeoGenerated { seo, warnings: Vec::new() }
}


fn title_base_string(label: &str, location: &str, date_label: &str) -> (r: String)
    ensures
        r@ == title_base(label@, location@, date_label@),
{
    let mut base = owned(label);
    push_str(&mut base, " in ");
    push_str(&mut base, location);
    let dl = chars_of(date_label);
    if dl.len() > 0 {
        push_str(&mut base, " (");
        push_str(&mut base, date_label);
        push_str(&mut base, ")");
    }
    base
}

fn meta_base_string(lower: &str, brand_name: &str, location: &str, brands: &[String]) -> (r: String)
    ensures
        r@ == meta_base(lower@, brand_name@, location@, string_views(brands@)),
{
    let mut mb = owned("Recente ");
    push_str(&mut mb, lower);
    push_str(&mut mb, " uitgevoerd door ");
    push_str(&mut mb, brand_name);
    push_str(&mut mb, " in ");
    push_str(&mut mb, location);
    push_str(&mut mb, ". Bekijk foto's en specificaties");
    let ghost mid = mb@;
    if brands.len() > 0 {
        push_str(&mut mb, " met merken zoals ");
        let j = join_strings(brands, ", ");
        push_str(&mut mb, j.as_str());
        push_str(&mut mb, " ");
    }
    assert(mb@ == mid + brands_phrase(string_views(brands@)));
    push_str(&mut mb, "van dit project.");
    mb
}

/// Can the slug take the first eight bytes of the project id?
pub fn seo_inputs_acceptable(project: &Project) -> (r: bool)
    ensures
        r == seo_inputs_ok(*project),
{
    let idc = chars_of(project.id.as_str());
    utf8_len_exec(&idc) >= 8 && is_byte_boundary_exec(&idc, 8)
}

/// The date label of the title: chrono's `"%B %Y"` of the start date, or
/// empty.
pub fn title_date_label_exec(start_date: &Option<String>) -> (r: String)
    ensures
        r@ == title_date_label(opt_view(*start_date)),
{
    match start_date {
        Some(d) => match format_rfc3339_month_year(d.as_str()) {
            Some(l) => l,
            None => String::new(),
        },
        None => String::new(),
    }
}

/// Generates the SEO page of a project from its public media, the brands
/// found on them and the SEO settings. `None` exactly when the project id
/// has no first eight bytes.
pub fn generate_seo_content(
    project: &Project,
    items: &[MediaObjects],
    brands_found: &[String],
    settings: &SeoSettings,
    existing: Option<&Seo>,
    fresh_id: &str,
    now: &str,
) -> (r: Option<SeoGenerated>)
    ensures
        r is Some <==> seo_inputs_ok(*project),
        r matches Some(g) ==> is_seo_content(
            g,
            *project,
            items@,
            brands_found@,
            *settings,
            existing,
            fresh_id@,
            now@,
            title_date_label(opt_view(project.start_date)),
        ),
        r is Some && project.cover_media_id is Some ==> (r->0.seo.og_image_media_id matches Some(o)
            && o@ == project.cover_media_id->0@),
{
    let date_label = title_date_label_exec(&project.start_date);
    if seo_inputs_acceptable(project) {
        Some(
            seo_content(
                project,
                items,
                brands_found,
                settings,
                existing,
                fresh_id,
                now,
                date_label.as_str(),
            ),
        )
    } else {
        None
    }
}

/// Generates the SEO page of a project (see `generate_seo_content`) under
/// a fresh id when the project has none yet, stamped now.
pub fn generate_for_project(
    project: &Project,
    items: &[MediaObjects],
    brands_found: &[String],
    settings: &SeoSettings,
    existing: Option<&Seo>,
) -> (r: Option<SeoGenerated>)
    ensures
        r is Some <==> seo_inputs_ok(*project),
        r matches Some(g) ==> is_seo_content(
            g,
            *project,
            items@,
            brands_found@,
            *settings,
            existing,
            g.seo.id@,
            g.seo.updated_at@,
            title_date_label(opt_view(project.start_date)),
        ),
{
    let id = new_uuid_string();
    let now = now_rfc3339();
    generate_seo_content(project, items, brands_found, settings, existing, id.as_str(), now.as_str())
}

/// The brands found on a project's media: every brand of every list, sorted,
/// without repeats.
pub fn collect_brands(lists: &[Vec<String>]) -> (r: Vec<String>)
    ensures
        string_views(r@) == sorted_set(
            lists@.map_values(|l: Vec<String>| string_views(l@)).flatten(),
        ),
{
    let ghost lv = lists@.map_values(|l: Vec<String>| string_views(l@));
    let mut all: Vec<String> = Vec::new();
    let mut i: usize = 0;
    while i < lists.len()
        invariant
            i <= lists@.len(),
            lv == lists@.map_values(|l: Vec<String>| string_views(l@)),
            string_views(all@) == lv.take(i as int).flatten(),
        decreases lists.len() - i,
    {
        let l = &lists[i];
        let ghost start = all@;
        let mut k: usize = 0;
        while k < l.len()
            invariant
                k <= l@.len(),
                string_views(all@) == string_views(start) + string_views(l@).take(k as int),
            decreases l.len() - k,
        {
            let ghost before = all@;
            all.push(l[k].clone());
            assert(string_views(all@) =~= string_views(before).push(l@[k as int]@));
            assert(string_views(l@).take(k as int + 1) =~= string_views(l@).take(k as int).push(
                l@[k as int]@,
            ));
            k += 1;
        }
        assert(string_views(l@).take(l@.len() as int) =~= string_views(l@));
        assert(lv.take(i as int + 1) =~= lv.take(i as int).push(lv[i as int]));
        assert(lv.take(i as int + 1).flatten() =~= lv.take(i as int).flatten() + lv[i as int]) by {
            lv.take(i as int).lemma_flatten_push(lv[i as int]);
        }
        i += 1;
    }
    assert(lv.take(lists@.len() as int) =~= lv);
    sort_dedup_set(&all)
}

/// The objects of a media file's latest detection, sorted, without
/// repeats.
pub fn latest_objects(labels: &[String]) -> (r: Vec<String>)
    ensures
        string_views(r@) == sorted_set(string_views(labels@)),
{
    sort_dedup_set(labels)
}

} // verus!
